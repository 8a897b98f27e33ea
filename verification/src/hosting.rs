//! The host's window: a form to start a match, and a panel that watches one.

use std::collections::VecDeque;

use vstd::prelude::*;
use vstd::std_specs::vecdeque::*;
use vstd::string::*;

use crate::hud::joined_lines;
use crate::protocol::{GameStatus, DEFAULT_PORT, MAX_PLAYERS, TICK_HZ};
use crate::server::{lines, PlayerStatus, Status};
use crate::text::{
    decimal, digits, is_digit, number_in, parse_u16, parse_u64, push_decimal, trim, trimmed,
    without_last,
};

verus! {

/// How many log lines the window keeps. A window has a bottom, and the recent
/// lines are the ones worth the room.
pub const LOG_SHOWN: usize = 10;

/// One of the two things the form asks for.
#[derive(Clone, Copy, Debug, PartialEq, Eq, Structural)]
pub enum Field {
    Port,
    Seed,
}

impl Field {
    pub fn label(self) -> (r: &'static str)
        ensures
            r@ == match self {
                Field::Port => "Port"@,
                Field::Seed => "World seed"@,
            },
    {
        match self {
            Field::Port => "Port",
            Field::Seed => "World seed",
        }
    }

    pub open spec fn other_spec(self) -> Field {
        match self {
            Field::Port => Field::Seed,
            Field::Seed => Field::Port,
        }
    }

    /// The field `Tab` moves on to.
    pub fn other(self) -> (r: Field)
        ensures
            self == Field::Port <==> r == Field::Seed,
            self == Field::Seed <==> r == Field::Port,
            r == self.other_spec(),
    {
        match self {
            Field::Port => Field::Seed,
            Field::Seed => Field::Port,
        }
    }

    pub open spec fn limit_spec(self) -> usize {
        match self {
            Field::Port => 5,
            Field::Seed => 20,
        }
    }

    /// A port is five digits; a seed is a whole number of 64 bits.
    pub fn limit(self) -> (r: usize)
        ensures
            self == Field::Port ==> r == 5,
            self == Field::Seed ==> r == 20,
            r == self.limit_spec(),
    {
        match self {
            Field::Port => 5,
            Field::Seed => 20,
        }
    }
}

/// A field once the first `n` characters of `text` have been typed into it.
/// Nothing here takes anything but digits.
pub open spec fn typed_digits(field: Seq<char>, text: Seq<char>, limit: nat, n: nat) -> Seq<char>
    decreases n,
{
    if n == 0 {
        field
    } else {
        let before = typed_digits(field, text, limit, (n - 1) as nat);
        if !is_digit(text[n - 1]) || before.len() >= limit {
            before
        } else {
            before.push(text[n - 1])
        }
    }
}

/// Adds typed digits to a field. Nothing here takes anything but digits, so a
/// mistyped port is impossible rather than merely reported.
pub fn type_into(field: &mut String, text: &str, limit: usize)
    ensures
        old(field)@.is_prefix_of(final(field)@),
        old(field)@.len() <= limit ==> final(field)@.len() <= limit,
        old(field)@.len() + text@.len() <= limit && (forall|i: int|
            0 <= i < text@.len() ==> '0' <= (#[trigger] text@[i]) <= '9') ==> final(field)@ =~= old(
            field,
        )@ + text@,
        forall|i: int|
            old(field)@.len() <= i < final(field)@.len() ==> '0' <= (#[trigger] final(field)@[i])
                <= '9',
        final(field)@ == typed_digits(old(field)@, text@, limit as nat, text@.len()),
{
    let n = text.unicode_len();
    let mut i: usize = 0;
    while i < n
        invariant
            i <= n,
            n == text@.len(),
            field@ == typed_digits(old(field)@, text@, limit as nat, i as nat),
        decreases n - i,
    {
        let ch = text.get_char(i);
        if '0' <= ch && ch <= '9' && field.as_str().unicode_len() < limit {
            field.push(ch);
        }
        i = i + 1;
    }
    proof {
        lemma_digits_go_at_the_end(old(field)@, text@, limit as nat, text@.len());
        assert(text@.take(text@.len() as int) =~= text@);
    }
}

/// A key that reached the form.
#[derive(Clone, Debug)]
pub enum Key {
    Enter,
    /// `Tab`, and the arrows that do the same.
    Walk,
    Backspace,
    Typed(String),
}

pub struct SetupForm {
    pub port: String,
    pub seed: String,
    pub focus: Field,
    pub status: String,
    pub trouble: bool,
}

/// The port a form asks for, if what it holds is one. An empty field is the
/// usual one.
pub open spec fn port_asked(text: Seq<char>) -> Option<u16> {
    if trimmed(text).len() == 0 {
        Some(DEFAULT_PORT)
    } else {
        match number_in(trimmed(text), 0xffff) {
            Some(n) => if n == 0 {
                None
            } else {
                Some(n as u16)
            },
            None => None,
        }
    }
}

/// The seed a form asks for, if what it holds is one. An empty field is a map
/// nobody has seen.
pub open spec fn seed_asked(text: Seq<char>, fresh: u64) -> Option<u64> {
    if trimmed(text).len() == 0 {
        Some(fresh)
    } else {
        number_in(trimmed(text), u64::MAX)
    }
}

impl SetupForm {
    pub fn new() -> (r: Self)
        ensures
            r.port@ == digits(DEFAULT_PORT as nat),
            r.seed@.len() == 0,
            r.focus == Field::Port,
            r.status@.len() == 0,
            !r.trouble,
    {
        SetupForm {
            port: decimal(DEFAULT_PORT as u64),
            seed: String::new(),
            focus: Field::Port,
            status: String::new(),
            trouble: false,
        }
    }

    pub open spec fn field_spec(&self, which: Field) -> Seq<char> {
        match which {
            Field::Port => self.port@,
            Field::Seed => self.seed@,
        }
    }

    pub fn field(&self, which: Field) -> (r: &str)
        ensures
            which == Field::Port ==> r@ == self.port@,
            which == Field::Seed ==> r@ == self.seed@,
            r@ == self.field_spec(which),
    {
        match which {
            Field::Port => self.port.as_str(),
            Field::Seed => self.seed.as_str(),
        }
    }

    /// What the field being edited holds once a key has been pressed.
    pub open spec fn edited(&self, key: Key) -> Seq<char> {
        let now = self.field_spec(self.focus);
        match key {
            Key::Backspace => if now.len() > 0 {
                now.drop_last()
            } else {
                now
            },
            Key::Typed(text) => typed_digits(
                now,
                text@,
                self.focus.limit_spec() as nat,
                text@.len(),
            ),
            _ => now,
        }
    }

    fn set_field(&mut self, which: Field, text: String)
        ensures
            which == Field::Port ==> final(self).port@ == text@ && final(self).seed == old(self).seed,
            which == Field::Seed ==> final(self).seed@ == text@ && final(self).port == old(self).port,
            final(self).field_spec(which) == text@,
            final(self).field_spec(which.other_spec()) == old(self).field_spec(which.other_spec()),
            *final(self) == (SetupForm {
                port: final(self).port,
                seed: final(self).seed,
                ..*old(self)
            }),
    {
        match which {
            Field::Port => {
                self.port = text;
            },
            Field::Seed => {
                self.seed = text;
            },
        }
    }

    /// Takes a key. Says whether it asks for the match to be started.
    pub fn press(&mut self, key: Key) -> (start: bool)
        ensures
            start <==> key is Enter,
            old(self).focus == Field::Port ==> final(self).seed@ == old(self).seed@,
            old(self).focus == Field::Seed ==> final(self).port@ == old(self).port@,
            key is Walk ==> final(self).focus != old(self).focus && final(self).port@ == old(self).port@
                && final(self).seed@ == old(self).seed@,
            key !is Walk ==> final(self).focus == old(self).focus,
            key is Backspace && old(self).focus == Field::Port && old(self).port@.len() > 0 ==> final(self).port@ == old(self).port@.drop_last(),
            start == (key is Enter),
            final(self).field_spec(old(self).focus) == old(self).edited(key),
            final(self).field_spec(old(self).focus.other_spec()) == old(self).field_spec(
                old(self).focus.other_spec(),
            ),
            *final(self) == (SetupForm {
                port: final(self).port,
                seed: final(self).seed,
                focus: if key is Walk {
                    old(self).focus.other_spec()
                } else {
                    old(self).focus
                },
                ..*old(self)
            }),
    {
        let focus = self.focus;
        match key {
            Key::Enter => true,
            Key::Walk => {
                self.focus = focus.other();
                false
            },
            Key::Backspace => {
                let shorter = without_last(self.field(focus));
                self.set_field(focus, shorter);
                false
            },
            Key::Typed(text) => {
                let mut longer = self.field(focus).to_owned();
                type_into(&mut longer, text.as_str(), focus.limit());
                self.set_field(focus, longer);
                false
            },
        }
    }

    /// The port and the seed to host on, or a complaint about one of them.
    /// `fresh` is a seed nobody has seen.
    pub fn submit(&mut self, fresh: u64) -> (r: Option<(u16, u64)>)
        ensures
            r is Some ==> (r->0).0 > 0,
            r is Some && trimmed(old(self).port@).len() == 0 ==> (r->0).0 == DEFAULT_PORT,
            r is Some && trimmed(old(self).seed@).len() == 0 ==> (r->0).1 == fresh,
            trimmed(old(self).port@).len() == 0 && trimmed(old(self).seed@).len() == 0 ==> r == Some(
                (DEFAULT_PORT, fresh),
            ),
            r is Some && trimmed(old(self).seed@).len() > 0 ==> number_in(
                trimmed(old(self).seed@),
                u64::MAX,
            ) == Some((r->0).1),
            r is None ==> final(self).trouble,
            final(self).port == old(self).port && final(self).seed == old(self).seed,
            r == match (port_asked(old(self).port@), seed_asked(old(self).seed@, fresh)) {
                (Some(port), Some(seed)) => Some((port, seed)),
                _ => None,
            },
            *final(self) == (SetupForm {
                status: final(self).status,
                trouble: old(self).trouble || r is None,
                ..*old(self)
            }),
            r is Some ==> final(self).status == old(self).status,
            port_asked(old(self).port@) is None ==> final(self).status@ == trimmed(
                old(self).port@,
            ) + " is not a port number"@,
            port_asked(old(self).port@) is Some && r is None ==> final(self).status@ == trimmed(
                old(self).seed@,
            ) + " is too large for a seed"@,
    {
        let typed_port = trim(self.port.as_str());
        let mut port: u16 = DEFAULT_PORT;
        if typed_port.as_str().unicode_len() > 0 {
            let asked: u16 = match parse_u16(typed_port.as_str()) {
                Some(n) => n,
                None => 0,
            };
            if asked == 0 {
                let mut why = typed_port;
                why.append(" is not a port number");
                self.status = why;
                self.trouble = true;
                return None;
            }
            port = asked;
        }
        let typed_seed = trim(self.seed.as_str());
        if typed_seed.as_str().unicode_len() == 0 {
            return Some((port, fresh));
        }
        match parse_u64(typed_seed.as_str()) {
            Some(seed) => Some((port, seed)),
            None => {
                let mut why = typed_seed;
                why.append(" is too large for a seed");
                self.status = why;
                self.trouble = true;
                None
            },
        }
    }

    /// The match is being hosted.
    pub fn hosting(&mut self)
        ensures
            final(self).status@.len() == 0,
            *final(self) == (SetupForm { status: final(self).status, trouble: false, ..*old(self) }),
    {
        self.status = String::new();
        self.trouble = false;
    }

    /// The match could not be hosted.
    pub fn failed(&mut self, why: String)
        ensures
            *final(self) == (SetupForm { status: why, trouble: true, ..*old(self) }),
    {
        self.status = why;
        self.trouble = true;
    }

    /// The match was stopped.
    pub fn stopped(&mut self)
        ensures
            final(self).status@ == "The match was stopped"@,
            *final(self) == (SetupForm { status: final(self).status, trouble: false, ..*old(self) }),
    {
        self.status = "The match was stopped".to_owned();
        self.trouble = false;
    }

    pub open spec fn value_words(&self, which: Field) -> Seq<char> {
        let held = self.field_spec(which);
        let shown = if held.len() > 0 {
            held
        } else {
            match which {
                Field::Port => digits(DEFAULT_PORT as nat),
                Field::Seed => "random"@,
            }
        };
        if self.focus == which {
            shown.push('|')
        } else {
            shown
        }
    }

    /// What a field shows: what is in it or what an empty one stands for, and a
    /// caret where the keys go.
    pub fn value_text(&self, which: Field) -> (r: String)
        ensures
            r@ == self.value_words(which),
    {
        let held = self.field(which);
        let mut out = if held.unicode_len() > 0 {
            held.to_owned()
        } else {
            match which {
                Field::Port => decimal(DEFAULT_PORT as u64),
                Field::Seed => "random".to_owned(),
            }
        };
        if self.focus == which {
            out.push('|');
        }
        out
    }
}

/// What the match last said, kept where the window can paint it.
pub struct Live {
    pub status: Option<Status>,
    pub log: VecDeque<String>,
}

/// A log with one line more, and the oldest gone if there was no room.
pub open spec fn watched(log: Seq<Seq<char>>, line: Seq<char>) -> Seq<Seq<char>> {
    if log.len() >= LOG_SHOWN {
        log.skip(1).push(line)
    } else {
        log.push(line)
    }
}

/// The log once `new[..n]` have been added.
pub open spec fn watched_all(log: Seq<Seq<char>>, new: Seq<Seq<char>>, n: nat) -> Seq<Seq<char>>
    decreases n,
{
    if n == 0 {
        log
    } else {
        watched(watched_all(log, new, (n - 1) as nat), new[n - 1])
    }
}

impl Live {
    pub fn new() -> (r: Self)
        ensures
            r.status is None,
            r.log@.len() == 0,
    {
        Live { status: None, log: VecDeque::new() }
    }

    /// Takes whatever the match has left since the last look.
    pub fn take(&mut self, status: Option<Status>, new: Vec<String>)
        requires
            old(self).log@.len() <= LOG_SHOWN,
        ensures
            new@.len() == 0 ==> lines(final(self).log@) =~= lines(old(self).log@),
            new@.len() > 0 ==> final(self).log@.len() > 0 && lines(final(self).log@).last() == lines(
                new@,
            ).last(),
            old(self).log@.len() + new@.len() <= LOG_SHOWN ==> lines(final(self).log@) =~= lines(
                old(self).log@,
            ) + lines(new@),
            final(self).log@.len() <= LOG_SHOWN,
            final(self).status == if status is Some {
                status
            } else {
                old(self).status
            },
            lines(final(self).log@) == watched_all(
                lines(old(self).log@),
                lines(new@),
                new@.len(),
            ),
    {
        if status.is_some() {
            self.status = status;
        }
        let ghost held = self.status;
        let mut i: usize = 0;
        while i < new.len()
            invariant
                i <= new@.len(),
                self.status == held,
                self.log@.len() <= LOG_SHOWN,
                lines(self.log@) =~= watched_all(lines(old(self).log@), lines(new@), i as nat),
            decreases new.len() - i,
        {
            let ghost before = self.log@;
            if self.log.len() >= LOG_SHOWN {
                self.log.pop_front();
            }
            self.log.push_back(new[i].clone());
            assert(lines(self.log@) =~= watched(lines(before), lines(new@)[i as int]));
            i = i + 1;
        }
        proof {
            lemma_the_log_keeps_what_is_new(lines(old(self).log@), lines(new@), new@.len());
            assert(lines(new@).take(new@.len() as int) =~= lines(new@));
        }
    }

    /// The log, as shown.
    pub fn log_text(&self) -> (r: String)
        ensures
            r@ == joined_lines(lines(self.log@), self.log@.len()),
    {
        let mut out = String::new();
        let n = self.log.len();
        let mut i: usize = 0;
        while i < n
            invariant
                i <= n,
                n == self.log@.len(),
                out@ =~= joined_lines(lines(self.log@), i as nat),
            decreases n - i,
        {
            if i > 0 {
                out.append("\n");
            }
            out.append(self.log[i].as_str());
            i = i + 1;
        }
        out
    }
}

pub open spec fn state_words(state: GameStatus) -> Seq<char> {
    match state {
        GameStatus::Waiting => "waiting for a second player"@,
        GameStatus::Running => "in play"@,
        GameStatus::Finished => "finished"@,
    }
}

/// Where a match is up to.
pub fn describe(state: GameStatus) -> (r: &'static str)
    ensures
        r@ == state_words(state),
{
    match state {
        GameStatus::Waiting => "waiting for a second player",
        GameStatus::Running => "in play",
        GameStatus::Finished => "finished",
    }
}

pub open spec fn summary_words(hosted: Option<u64>, live: Option<Status>) -> Seq<char> {
    match (hosted, live) {
        (Some(_), Some(s)) => state_words(s.state) + "  |  tick "@ + digits(s.tick as nat)
            + "\nseed "@ + digits(s.seed as nat) + "  |  "@ + digits(TICK_HZ as nat)
            + " Hz  |  up to "@ + digits(MAX_PLAYERS as nat) + " players"@,
        (Some(seed), None) => "seed "@ + digits(seed as nat) + "  |  starting"@,
        (None, _) => Seq::empty(),
    }
}

/// The match in two lines. `hosted` is the seed hosting began on. The seed shown
/// is the match's own as soon as it has said anything: a new match is a new map,
/// and a panel still showing the old seed says the button did nothing.
pub fn summary_text(hosted: Option<u64>, live: &Live) -> (r: String)
    ensures
        r@ == summary_words(hosted, live.status),
{
    match hosted {
        None => String::new(),
        Some(seed) => match &live.status {
            Some(s) => {
                let mut out = describe(s.state).to_owned();
                out.append("  |  tick ");
                push_decimal(&mut out, s.tick as u64);
                out.append("\nseed ");
                push_decimal(&mut out, s.seed);
                out.append("  |  ");
                push_decimal(&mut out, TICK_HZ as u64);
                out.append(" Hz  |  up to ");
                push_decimal(&mut out, MAX_PLAYERS as u64);
                out.append(" players");
                out
            },
            None => {
                let mut out = "seed ".to_owned();
                push_decimal(&mut out, seed);
                out.append("  |  starting");
                out
            },
        },
    }
}

pub open spec fn link_words(connected: bool, rtt_ms: Option<u32>) -> Seq<char> {
    if connected {
        match rtt_ms {
            Some(ms) => digits(ms as nat) + " ms"@,
            None => "connected"@,
        }
    } else {
        "offline"@
    }
}

pub open spec fn player_words(p: PlayerStatus) -> Seq<char> {
    p.name@ + " #"@ + digits(p.id as nat) + "   ore "@ + digits(p.ore_mined as nat)
        + "   captures "@ + digits(p.captures as nat) + "   "@ + link_words(
        p.connected,
        p.rtt_ms,
    )
}

fn link_text(connected: bool, rtt_ms: Option<u32>) -> (r: String)
    ensures
        !connected ==> r@ == "offline"@,
        connected && rtt_ms is None ==> r@ == "connected"@,
        connected && rtt_ms is Some ==> r@ == digits(rtt_ms->0 as nat) + " ms"@,
        r@ == link_words(connected, rtt_ms),
{
    if !connected {
        return "offline".to_owned();
    }
    match rtt_ms {
        Some(ms) => {
            let mut out = decimal(ms as u64);
            out.append(" ms");
            out
        },
        None => "connected".to_owned(),
    }
}

/// One row of the table of players.
pub fn player_text(live: &Live, slot: usize) -> (r: String)
    ensures
        live.status is Some && slot < live.status->0.players@.len() ==> live.status->0.players@[slot as int].name@.is_prefix_of(
            r@,
        ),
        live.status is None || slot >= live.status->0.players@.len() ==> r@ == "--"@,
        r@ == match live.status {
            Some(s) => if slot < s.players@.len() {
                player_words(s.players@[slot as int])
            } else {
                "--"@
            },
            None => "--"@,
        },
{
    if let Some(s) = &live.status {
        if slot < s.players.len() {
            let p = &s.players[slot];
            let mut out = p.name.clone();
            out.append(" #");
            push_decimal(&mut out, p.id as u64);
            out.append("   ore ");
            push_decimal(&mut out, p.ore_mined as u64);
            out.append("   captures ");
            push_decimal(&mut out, p.captures as u64);
            out.append("   ");
            let link = link_text(p.connected, p.rtt_ms);
            out.append(link.as_str());
            return out;
        }
    }
    "--".to_owned()
}

pub open spec fn join_words(
    addr: Seq<char>,
    everywhere: bool,
    outward: Option<Seq<char>>,
    port: u16,
) -> Seq<char> {
    if !everywhere {
        addr
    } else {
        (match outward {
            Some(ip) => ip,
            None => "127.0.0.1"@,
        }) + ":"@ + digits(port as nat)
    }
}

/// What a player on another machine has to type.
///
/// A server told exactly which address to listen on has already answered the
/// question. One bound to every interface knows its port but not which of its
/// addresses anybody can reach; `outward` is the one a packet would leave by.
/// With no network at all, a local match is still a match.
pub fn join_at(addr: &str, everywhere: bool, outward: Option<String>, port: u16) -> (r: String)
    ensures
        !everywhere ==> r@ == addr@,
        everywhere ==> digits(port as nat).is_suffix_of(r@),
        everywhere && outward is Some ==> outward->0@.is_prefix_of(r@),
        r@ == join_words(
            addr@,
            everywhere,
            match outward {
                Some(ip) => Some(ip@),
                None => None,
            },
            port,
        ),
{
    if !everywhere {
        return addr.to_owned();
    }
    let mut out = match outward {
        Some(ip) => ip,
        None => "127.0.0.1".to_owned(),
    };
    out.append(":");
    push_decimal(&mut out, port as u64);
    out
}

/// What the thread a match runs on does after a pump.
#[derive(Clone, Copy, Debug, PartialEq, Eq, Structural)]
pub enum AfterPump {
    /// Say goodbye and end.
    Stop,
    NewMatch,
    Sleep,
}

/// What the thread a match runs on does after a pump: what the window asked for.
pub fn after_pump(stop: bool, new_match: bool) -> (r: AfterPump)
    ensures
        r == if stop {
            AfterPump::Stop
        } else if new_match {
            AfterPump::NewMatch
        } else {
            AfterPump::Sleep
        },
{
    if stop {
        AfterPump::Stop
    } else if new_match {
        AfterPump::NewMatch
    } else {
        AfterPump::Sleep
    }
}

/// However much is typed, a field holds digits only and never more than its
/// limit.
pub proof fn lemma_a_field_holds_digits(field: Seq<char>, text: Seq<char>, limit: nat, n: nat)
    requires
        field.len() <= limit,
        n <= text.len(),
        forall|i: int| 0 <= i < field.len() ==> is_digit(#[trigger] field[i]),
    ensures
        typed_digits(field, text, limit, n).len() <= limit,
        forall|i: int|
            0 <= i < typed_digits(field, text, limit, n).len() ==> is_digit(
                #[trigger] typed_digits(field, text, limit, n)[i],
            ),
    decreases n,
{
    if n > 0 {
        lemma_a_field_holds_digits(field, text, limit, (n - 1) as nat);
    }
}

/// Typing adds digits at the end, in order, while there is room.
pub proof fn lemma_digits_go_at_the_end(
    field: Seq<char>,
    text: Seq<char>,
    limit: nat,
    n: nat,
)
    requires
        n <= text.len(),
    ensures
        field.is_prefix_of(typed_digits(field, text, limit, n)),
        field.len() <= limit ==> typed_digits(field, text, limit, n).len() <= limit,
        typed_digits(field, text, limit, n).len() <= field.len() + n,
        field.len() + n <= limit && (forall|i: int|
            0 <= i < n ==> '0' <= (#[trigger] text[i]) <= '9') ==> typed_digits(
            field,
            text,
            limit,
            n,
        ) =~= field + text.take(n as int),
        forall|i: int|
            field.len() <= i < typed_digits(field, text, limit, n).len() ==> '0' <= (
            #[trigger] typed_digits(field, text, limit, n)[i]) <= '9',
    decreases n,
{
    if n > 0 {
        let m = (n - 1) as nat;
        lemma_digits_go_at_the_end(field, text, limit, m);
        let (before, all) = (
            typed_digits(field, text, limit, m),
            typed_digits(field, text, limit, n),
        );
        assert(all == before || all == before.push(text[n - 1]));
        assert(all.take(field.len() as int) =~= before.take(field.len() as int));
        if field.len() + n <= limit && (forall|i: int|
            0 <= i < n ==> '0' <= (#[trigger] text[i]) <= '9') {
            assert('0' <= text[n - 1] <= '9');
            assert(text.take(n as int) =~= text.take(m as int).push(text[n - 1]));
        }
    }
}

/// The newest line is always shown, and nothing is dropped while there is room.
pub proof fn lemma_the_log_keeps_what_is_new(log: Seq<Seq<char>>, new: Seq<Seq<char>>, n: nat)
    requires
        n <= new.len(),
    ensures
        n > 0 ==> watched_all(log, new, n).len() > 0 && watched_all(log, new, n).last() == new[n
            - 1],
        log.len() <= LOG_SHOWN ==> watched_all(log, new, n).len() <= LOG_SHOWN,
        log.len() + n <= LOG_SHOWN ==> watched_all(log, new, n) =~= log + new.take(n as int),
    decreases n,
{
    if n > 0 {
        let m = (n - 1) as nat;
        lemma_the_log_keeps_what_is_new(log, new, m);
        if log.len() + n <= LOG_SHOWN {
            assert(new.take(n as int) =~= new.take(m as int).push(new[n - 1]));
        }
    }
}

/// A port that is typed is the port that is asked for, and so is a seed. There
/// is no port zero.
pub proof fn lemma_what_is_typed_is_asked_for(port: u16, seed: u64, fresh: u64)
    ensures
        port > 0 ==> port_asked(digits(port as nat)) == Some(port),
        port == 0 ==> port_asked(digits(port as nat)) is None,
        seed_asked(digits(seed as nat), fresh) == Some(seed),
{
    crate::text::lemma_a_number_reads_back(port as nat);
    crate::text::lemma_a_number_reads_back(seed as nat);
    crate::console::lemma_a_number_in_bounds_reads_back(port as nat, 0xffff);
    lemma_a_number_has_no_space(port as nat);
    lemma_a_number_has_no_space(seed as nat);
}

proof fn lemma_a_number_has_no_space(n: nat)
    ensures
        trimmed(digits(n)) == digits(n),
{
    crate::text::lemma_a_number_reads_back(n);
    let s = digits(n);
    assert(is_digit(s[0]));
    assert(is_digit(s[s.len() - 1]));
    assert(s.skip(0) =~= s);
    assert(s.take(s.len() as int) =~= s);
}

/// A row of the table starts with who it is and what they mined, and ends with
/// how their link is.
pub proof fn lemma_a_row_is_its_players(p: PlayerStatus)
    ensures
        (p.name@ + " #"@ + digits(p.id as nat) + "   ore "@ + digits(
            p.ore_mined as nat,
        )).is_prefix_of(player_words(p)),
        (digits(p.captures as nat) + "   "@ + link_words(p.connected, p.rtt_ms)).is_suffix_of(
            player_words(p),
        ),
{
    let all = player_words(p);
    let head = p.name@ + " #"@ + digits(p.id as nat) + "   ore "@ + digits(p.ore_mined as nat);
    let tail = digits(p.captures as nat) + "   "@ + link_words(p.connected, p.rtt_ms);
    assert(all =~= head + "   captures "@ + tail);
    assert(all.take(head.len() as int) =~= head);
    assert(all.skip(all.len() - tail.len()) =~= tail);
}

/// The seed shown is the match's own as soon as it has said anything.
pub proof fn lemma_the_seed_shown_is_the_matchs(seed: u64, s: Status)
    ensures
        (state_words(s.state) + "  |  tick "@ + digits(s.tick as nat) + "\nseed "@ + digits(
            s.seed as nat,
        )).is_prefix_of(summary_words(Some(seed), Some(s))),
{
    let all = summary_words(Some(seed), Some(s));
    let head = state_words(s.state) + "  |  tick "@ + digits(s.tick as nat) + "\nseed "@ + digits(
        s.seed as nat,
    );
    assert(all.take(head.len() as int) =~= head);
}

} // verus!
