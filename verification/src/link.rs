//! The client half of the connection: the handshake, and what each message
//! means.
//!
//! If the link goes quiet it drops back to handshaking on its own: because the
//! server keys players by token rather than by address, coming back returns the
//! player to their own ore, power-ups, and vehicles rather than to a fresh slot.

use vstd::prelude::*;
use vstd::string::*;

use crate::game::{Hill, OreDeposit};
use crate::measure::Stamp;
use crate::predict::Prediction;
use crate::protocol::{DenyReason, GameEvent, PlayerInfo, MAX_PLAYERS};
use crate::state::{log_text, name_for, shown, GameState};
use crate::text::{digits, push_decimal};
use crate::wording::Wording;

verus! {

/// How often an unanswered connection request is repeated: a quarter of a
/// second.
pub const HANDSHAKE_RETRY: Stamp = 0x3fd0_0000_0000_0000;

/// Silence after which the connection is considered lost and retried: eight
/// seconds.
pub const SILENCE: Stamp = 0x4020_0000_0000_0000;

/// How long an unanswered handshake runs before it is reported: four seconds. A
/// wrong address, a firewall, and a server that was never started all look
/// identical to waiting, so it is said out loud rather than retried in silence
/// forever.
pub const HANDSHAKE_UNANSWERED: Stamp = 0x4010_0000_0000_0000;

#[derive(Clone, Copy, Debug, PartialEq, Eq, Structural)]
pub enum Link {
    Connecting,
    Connected,
    /// The server refused us; retrying will not help.
    Denied(DenyReason),
}

/// Where a client's handshake is up to.
#[derive(Clone, Copy, Debug, PartialEq, Eq, Structural)]
pub struct Session {
    pub link: Link,
    /// Whether an unanswered handshake has been reported.
    pub warned_unanswered: bool,
}

/// How long it has been.
#[derive(Clone, Copy, Debug, PartialEq, Eq, Structural)]
pub struct Elapsed {
    pub since_request: Stamp,
    pub since_handshake: Stamp,
    pub since_heard: Stamp,
}

/// What a client has to do once it has read everything there was to read.
#[derive(Clone, Copy, Debug, PartialEq, Eq, Structural)]
pub struct Duty {
    /// Ask to be let in.
    pub request: bool,
    /// Say that nobody answers.
    pub warn: bool,
    /// Start over.
    pub reset: bool,
}

/// The kinds of packet a client waiting for a verdict can be handed.
#[derive(Clone, Copy, Debug, PartialEq, Eq, Structural)]
pub enum Answer {
    Accepted,
    /// With the reason, if it could be read.
    Denied(Option<DenyReason>),
    Other,
}

pub open spec fn reason_or_full_spec(reason: Option<DenyReason>) -> DenyReason {
    match reason {
        Some(r) => r,
        None => DenyReason::ServerFull,
    }
}

/// A refusal whose reason cannot be read is taken for a full server.
pub fn reason_or_full(reason: Option<DenyReason>) -> (r: DenyReason)
    ensures
        reason is Some ==> r == reason->0,
        reason is None ==> r == DenyReason::ServerFull,
        r == reason_or_full_spec(reason),
{
    match reason {
        Some(r) => r,
        None => DenyReason::ServerFull,
    }
}

/// A log with one line more, if there is one.
pub open spec fn shown_if(log: Seq<Seq<char>>, line: Option<Seq<char>>) -> Seq<Seq<char>> {
    match line {
        Some(line) => shown(log, line),
        None => log,
    }
}

impl Session {
    pub fn new() -> (r: Self)
        ensures
            r == (Session { link: Link::Connecting, warned_unanswered: false }),
    {
        Session { link: Link::Connecting, warned_unanswered: false }
    }

    /// Whether anything but a handshake can be sent.
    pub fn connected(&self) -> (r: bool)
        ensures
            r == (self.link == Link::Connected),
    {
        self.link == Link::Connected
    }

    /// What an answer means to a client waiting for the verdict on its
    /// handshake: the refusal, or that it is let in, or nothing.
    ///
    /// Only a refusal is worth reporting: it is the one answer that never
    /// changes. Silence is not failure.
    pub fn verdict(&mut self, answer: Answer) -> (r: Option<Result<(), DenyReason>>)
        ensures
            r is None <==> answer is Other,
            r == Some(Ok::<(), DenyReason>(())) <==> answer is Accepted,
            answer is Denied ==> final(self).link is Denied,
            answer is Denied && answer->Denied_0 is Some ==> final(self).link == Link::Denied(
                answer->Denied_0->0,
            ) && r == Some(Err::<(), DenyReason>(answer->Denied_0->0)),
            match answer {
                Answer::Accepted => r == Some(Ok::<(), DenyReason>(())) && *final(self) == *old(
                    self,
                ),
                Answer::Denied(reason) => {
                    &&& r == Some(Err::<(), DenyReason>(reason_or_full_spec(reason)))
                    &&& *final(self) == Session {
                        link: Link::Denied(reason_or_full_spec(reason)),
                        ..*old(self)
                    }
                },
                Answer::Other => r is None && *final(self) == *old(self),
            },
    {
        match answer {
            Answer::Accepted => Some(Ok(())),
            Answer::Denied(reason) => {
                let reason = reason_or_full(reason);
                self.link = Link::Denied(reason);
                Some(Err(reason))
            },
            Answer::Other => None,
        }
    }

    /// The server let us in. `ore` and `hills` are the field its seed gives.
    pub fn accepted(
        &mut self,
        state: &mut GameState,
        player_id: u8,
        seed: u64,
        ore: Vec<OreDeposit>,
        hills: Vec<Hill>,
        colors: &Vec<String>,
    )
        requires
            old(state).wf(),
            colors@.len() == MAX_PLAYERS,
        ensures
            final(self).link == Link::Connected,
            old(self).link != Link::Connected ==> final(state).local_player == Some(player_id) && final(state).world_seed == Some(seed),
            old(self).link != Link::Connected && old(state).world_seed != Some(seed) ==> final(state).ore
                == ore && final(state).hills == hills,
            old(self).link == Link::Connected ==> *final(state) == *old(state),
            final(state).wf(),
            *final(self) == (Session { link: Link::Connected, ..*old(self) }),
            if old(self).link == Link::Connected {
                *final(state) == *old(state)
            } else {
                &&& *final(state) == welcomed(
                    *old(state),
                    final(state).log,
                    player_id,
                    seed,
                    ore,
                    hills,
                )
                &&& log_text(final(state).log@) =~= shown(
                    log_text(old(state).log@),
                    "Connected as "@ + name_for(old(state).roster@, colors@, player_id),
                )
            },
    {
        if self.link != Link::Connected {
            self.link = Link::Connected;
            state.local_player = Some(player_id);
            state.adopt_world(seed, ore, hills);
            let name = state.name_of(player_id, colors);
            let mut line = "Connected as ".to_owned();
            line.append(name.as_str());
            state.note(line);
        }
    }

    /// The server refused us.
    pub fn denied(&mut self, state: &mut GameState, reason: Option<DenyReason>, wording: &Wording)
        requires
            old(state).wf(),
        ensures
            final(state).wf(),
            *final(self) == (Session {
                link: Link::Denied(reason_or_full_spec(reason)),
                ..*old(self)
            }),
            *final(state) == (GameState { log: final(state).log, ..*old(state) }),
            log_text(final(state).log@) == shown_if(
                log_text(old(state).log@),
                if old(self).link == Link::Denied(reason_or_full_spec(reason)) {
                    None
                } else {
                    Some("Rejected: "@ + wording.deny_spec(reason_or_full_spec(reason)))
                },
            ),
    {
        let reason = reason_or_full(reason);
        if self.link != Link::Denied(reason) {
            let mut line = "Rejected: ".to_owned();
            line.append(wording.deny(reason));
            state.note(line);
        }
        self.link = Link::Denied(reason);
    }

    /// Starts the handshake over.
    pub fn reset_for_retry(&mut self)
        ensures
            *final(self) == (Session { link: Link::Connecting, warned_unanswered: false }),
    {
        self.link = Link::Connecting;
        self.warned_unanswered = false;
    }

    /// The server has forgotten us; handshake again from scratch.
    pub fn dropped(&mut self, state: &mut GameState)
        requires
            old(state).wf(),
        ensures
            final(state).wf(),
            *final(self) == (Session { link: Link::Connecting, warned_unanswered: false }),
            *final(state) == (GameState { log: final(state).log, ..*old(state) }),
            log_text(final(state).log@) == shown_if(
                log_text(old(state).log@),
                if old(self).link == Link::Connected {
                    Some("Connection reset; reconnecting"@)
                } else {
                    None
                },
            ),
    {
        if self.link == Link::Connected {
            state.note("Connection reset; reconnecting".to_owned());
        }
        self.reset_for_retry();
    }

    /// What is due now that everything there was to read has been read.
    pub open spec fn duty_spec(self, elapsed: Elapsed) -> Duty {
        match self.link {
            Link::Connecting => Duty {
                request: elapsed.since_request >= HANDSHAKE_RETRY,
                warn: !self.warned_unanswered && elapsed.since_handshake >= HANDSHAKE_UNANSWERED,
                reset: false,
            },
            Link::Connected => Duty {
                request: false,
                warn: false,
                reset: elapsed.since_heard > SILENCE,
            },
            Link::Denied(_) => Duty { request: false, warn: false, reset: false },
        }
    }

    /// Drives the handshake, and notices a connection that has gone quiet.
    pub fn keep_up(&mut self, state: &mut GameState, elapsed: Elapsed) -> (r: Duty)
        requires
            old(state).wf(),
        ensures
            old(self).link == Link::Connecting ==> {
                &&& r.request <==> elapsed.since_request >= HANDSHAKE_RETRY
                &&& r.warn <==> !old(self).warned_unanswered && elapsed.since_handshake
                    >= HANDSHAKE_UNANSWERED
                &&& !r.reset && final(self).link == Link::Connecting
                &&& final(self).warned_unanswered <==> old(self).warned_unanswered || r.warn
            },
            old(self).link == Link::Connected ==> {
                &&& !r.request && !r.warn
                &&& r.reset <==> elapsed.since_heard > SILENCE
                &&& r.reset ==> final(self).link == Link::Connecting && !final(self).warned_unanswered
                &&& !r.reset ==> *final(self) == *old(self)
            },
            old(self).link is Denied ==> !r.request && !r.warn && !r.reset && *final(self) == *old(self),
            final(state).wf(),
            r == old(self).duty_spec(elapsed),
            *final(self) == if r.reset {
                Session { link: Link::Connecting, warned_unanswered: false }
            } else {
                Session { warned_unanswered: old(self).warned_unanswered || r.warn, ..*old(self) }
            },
            *final(state) == (GameState { log: final(state).log, ..*old(state) }),
            log_text(final(state).log@) == shown_if(
                log_text(old(state).log@),
                if r.warn {
                    Some("No reply from the server"@)
                } else if r.reset {
                    Some("Lost contact with the server; reconnecting"@)
                } else {
                    None
                },
            ),
    {
        match self.link {
            Link::Connecting => {
                let request = elapsed.since_request >= HANDSHAKE_RETRY;
                let warn = !self.warned_unanswered && elapsed.since_handshake
                    >= HANDSHAKE_UNANSWERED;
                if warn {
                    self.warned_unanswered = true;
                    state.note("No reply from the server".to_owned());
                }
                Duty { request, warn, reset: false }
            },
            Link::Connected => {
                let reset = elapsed.since_heard > SILENCE;
                if reset {
                    state.note("Lost contact with the server; reconnecting".to_owned());
                    self.reset_for_retry();
                }
                Duty { request: false, warn: false, reset }
            },
            Link::Denied(_) => Duty { request: false, warn: false, reset: false },
        }
    }

    /// The server's welcome, over the reliable stream.
    pub fn welcome(
        &mut self,
        state: &mut GameState,
        player_id: u8,
        seed: u64,
        ore: Vec<OreDeposit>,
        hills: Vec<Hill>,
    )
        requires
            old(state).wf(),
        ensures
            final(self).link == Link::Connected,
            final(state).local_player == Some(player_id) && final(state).world_seed == Some(seed),
            old(state).world_seed != Some(seed) ==> final(state).ore == ore && final(state).hills == hills,
            old(state).world_seed == Some(seed) ==> final(state).ore == old(state).ore && final(state).hills == old(state).hills,
            final(state).snapshots == old(state).snapshots && final(state).roster == old(state).roster,
            final(state).wf(),
            *final(self) == (Session { link: Link::Connected, ..*old(self) }),
            *final(state) == welcomed(
                *old(state),
                old(state).log,
                player_id,
                seed,
                ore,
                hills,
            ),
    {
        state.local_player = Some(player_id);
        state.adopt_world(seed, ore, hills);
        self.link = Link::Connected;
    }
}

/// A client's state once it has been let in.
pub open spec fn welcomed(
    state: GameState,
    log: std::collections::VecDeque<String>,
    player_id: u8,
    seed: u64,
    ore: Vec<OreDeposit>,
    hills: Vec<Hill>,
) -> GameState {
    if state.world_seed == Some(seed) {
        GameState { local_player: Some(player_id), log, ..state }
    } else {
        GameState {
            local_player: Some(player_id),
            world_seed: Some(seed),
            ore,
            hills,
            log,
            ..state
        }
    }
}

/// What an event reads like to player `me`, where `called` is what everybody is
/// called. Some are nobody else's business.
pub open spec fn described(
    me: Option<u8>,
    called: spec_fn(u8) -> Seq<char>,
    wording: &Wording,
    event: GameEvent,
) -> Option<Seq<char>> {
    match event {
        GameEvent::PlayerJoined { player } => Some(called(player) + " joined"@),
        GameEvent::PlayerLeft { player } => Some(called(player) + " disconnected"@),
        GameEvent::MatchStarted => Some("The match has begun"@),
        GameEvent::PurchaseAccepted { powerup, credits } => Some(
            "Bought "@ + wording.upgrade_spec(powerup) + " ("@ + digits(credits as nat)
                + " ore left)"@,
        ),
        GameEvent::PurchaseRejected { powerup, reason } => Some(
            "Cannot buy "@ + wording.upgrade_spec(powerup) + ": "@ + wording.reject_spec(reason),
        ),
        // A tank lost to a hillside is charged to its own driver. Saying
        // somebody destroyed their own tank reads as a bug.
        GameEvent::TankDestroyed { player, by } => if by == player {
            if me == Some(player) {
                Some("You wrecked your own tank"@)
            } else {
                Some(called(player) + " wrecked their own tank"@)
            }
        } else if me == Some(player) {
            Some("Your tank was destroyed by "@ + called(by))
        } else {
            Some(called(by) + " destroyed "@ + called(player) + "'s tank"@)
        },
        GameEvent::TankRespawned { player } => if me == Some(player) {
            Some("Your tank is back on the field"@)
        } else {
            None
        },
        GameEvent::MinerDisabled { player } => if me == Some(player) {
            Some("Your miner is disabled -- defend it!"@)
        } else {
            Some(called(player) + "'s miner is disabled"@)
        },
        GameEvent::MinerRescued { player } => if me == Some(player) {
            Some("Your miner is back online"@)
        } else {
            Some(called(player) + " rescued their miner"@)
        },
        GameEvent::SentinelDestroyed { player } => if me == Some(player) {
            Some("Your base gun is down"@)
        } else {
            Some(called(player) + "'s base gun is down"@)
        },
        GameEvent::SentinelRebuilt { player } => if me == Some(player) {
            Some("Your base gun is back"@)
        } else {
            None
        },
        GameEvent::OreSeized { by, from, amount } => if me == Some(by) {
            Some("Seized "@ + digits(amount as nat) + " ore from "@ + called(from))
        } else if me == Some(from) {
            Some(called(by) + " seized your "@ + digits(amount as nat) + " ore"@)
        } else {
            Some(
                called(by) + " seized "@ + digits(amount as nat) + " ore from "@ + called(from),
            )
        },
        GameEvent::MinerCaptured { by, from } => Some(
            called(by) + " captured "@ + called(from) + "'s miner"@,
        ),
        GameEvent::PlayerEliminated { player } => if me == Some(player) {
            Some("Miner lost -- back in 60s"@)
        } else {
            Some(called(player) + " is down for a minute"@)
        },
        GameEvent::PlayerReturned { player } => if me == Some(player) {
            Some("You are back, with your upgrades and nothing else"@)
        } else {
            Some(called(player) + " is back on the field"@)
        },
        GameEvent::GameOver { winner } => if me == Some(winner) {
            Some("You win!"@)
        } else {
            Some(called(winner) + " wins the match"@)
        },
        GameEvent::MatchReset { by, .. } => if me == Some(by) {
            Some("You started a new match"@)
        } else {
            Some(called(by) + " started a new match"@)
        },
    }
}

/// What everybody is called.
pub open spec fn names(roster: Seq<PlayerInfo>, colors: Seq<String>) -> spec_fn(u8) -> Seq<char> {
    |id: u8| name_for(roster, colors, id)
}

fn with_tail(mut head: String, tail: &str) -> (r: Option<String>)
    ensures
        r is Some,
        r->0@ == head@ + tail@,
{
    head.append(tail);
    Some(head)
}

fn says(line: &str) -> (r: Option<String>)
    ensures
        r is Some,
        r->0@ == line@,
{
    Some(line.to_owned())
}

fn about_two(first: String, between: &str, second: &str, tail: &str) -> (r: Option<String>)
    ensures
        r is Some,
        r->0@ == first@ + between@ + second@ + tail@,
{
    let mut out = first;
    out.append(between);
    out.append(second);
    out.append(tail);
    Some(out)
}

/// Puts an event into words for the on-screen log, if it is worth any.
pub fn describe_event(
    state: &GameState,
    event: GameEvent,
    colors: &Vec<String>,
    wording: &Wording,
) -> (r: Option<String>)
    requires
        wording.wf(),
        colors@.len() == MAX_PLAYERS,
    ensures
        match r {
            Some(line) => described(
                state.local_player,
                names(state.roster@, colors@),
                wording,
                event,
            ) == Some(line@),
            None => described(
                state.local_player,
                names(state.roster@, colors@),
                wording,
                event,
            ) is None,
        },
{
    let me: Option<u8> = state.local_player;
    match event {
        GameEvent::PlayerJoined { player } => with_tail(state.name_of(player, colors), " joined"),
        GameEvent::PlayerLeft { player } => with_tail(
            state.name_of(player, colors),
            " disconnected",
        ),
        GameEvent::MatchStarted => says("The match has begun"),
        GameEvent::PurchaseAccepted { powerup, credits } => {
            let mut out = "Bought ".to_owned();
            out.append(wording.upgrade(powerup));
            out.append(" (");
            push_decimal(&mut out, credits as u64);
            with_tail(out, " ore left)")
        },
        GameEvent::PurchaseRejected { powerup, reason } => {
            let mut out = "Cannot buy ".to_owned();
            out.append(wording.upgrade(powerup));
            out.append(": ");
            with_tail(out, wording.reject(reason))
        },
        GameEvent::TankDestroyed { player, by } => {
            if by == player {
                if is_me(me, player) {
                    says("You wrecked your own tank")
                } else {
                    with_tail(state.name_of(player, colors), " wrecked their own tank")
                }
            } else if is_me(me, player) {
                let name = state.name_of(by, colors);
                with_tail("Your tank was destroyed by ".to_owned(), name.as_str())
            } else {
                let name = state.name_of(player, colors);
                about_two(state.name_of(by, colors), " destroyed ", name.as_str(), "'s tank")
            }
        },
        GameEvent::TankRespawned { player } => {
            if is_me(me, player) {
                says("Your tank is back on the field")
            } else {
                None
            }
        },
        GameEvent::MinerDisabled { player } => {
            if is_me(me, player) {
                says("Your miner is disabled -- defend it!")
            } else {
                with_tail(state.name_of(player, colors), "'s miner is disabled")
            }
        },
        GameEvent::MinerRescued { player } => {
            if is_me(me, player) {
                says("Your miner is back online")
            } else {
                with_tail(state.name_of(player, colors), " rescued their miner")
            }
        },
        GameEvent::SentinelDestroyed { player } => {
            if is_me(me, player) {
                says("Your base gun is down")
            } else {
                with_tail(state.name_of(player, colors), "'s base gun is down")
            }
        },
        GameEvent::SentinelRebuilt { player } => {
            if is_me(me, player) {
                says("Your base gun is back")
            } else {
                None
            }
        },
        GameEvent::OreSeized { by, from, amount } => {
            if is_me(me, by) {
                let mut out = "Seized ".to_owned();
                push_decimal(&mut out, amount as u64);
                out.append(" ore from ");
                let name = state.name_of(from, colors);
                with_tail(out, name.as_str())
            } else if is_me(me, from) {
                let mut out = state.name_of(by, colors);
                out.append(" seized your ");
                push_decimal(&mut out, amount as u64);
                with_tail(out, " ore")
            } else {
                let mut out = state.name_of(by, colors);
                out.append(" seized ");
                push_decimal(&mut out, amount as u64);
                out.append(" ore from ");
                let name = state.name_of(from, colors);
                with_tail(out, name.as_str())
            }
        },
        GameEvent::MinerCaptured { by, from } => {
            let name = state.name_of(from, colors);
            about_two(state.name_of(by, colors), " captured ", name.as_str(), "'s miner")
        },
        // A capture puts you off the field for a minute -- unless it also
        // emptied the field, in which case the end of the match is right behind
        // this event and this line is overtaken a moment later.
        GameEvent::PlayerEliminated { player } => {
            if is_me(me, player) {
                says("Miner lost -- back in 60s")
            } else {
                with_tail(state.name_of(player, colors), " is down for a minute")
            }
        },
        GameEvent::PlayerReturned { player } => {
            if is_me(me, player) {
                says("You are back, with your upgrades and nothing else")
            } else {
                with_tail(state.name_of(player, colors), " is back on the field")
            }
        },
        GameEvent::GameOver { winner } => {
            if is_me(me, winner) {
                says("You win!")
            } else {
                with_tail(state.name_of(winner, colors), " wins the match")
            }
        },
        GameEvent::MatchReset { world_seed: _, by } => {
            if is_me(me, by) {
                says("You started a new match")
            } else {
                with_tail(state.name_of(by, colors), " started a new match")
            }
        },
    }
}

fn is_me(me: Option<u8>, id: u8) -> (r: bool)
    ensures
        r == (me == Some(id)),
{
    match me {
        Some(m) => m == id,
        None => false,
    }
}

/// Takes in an event: a restart changes the client's own world before it is
/// narrated; the rest are purely for the log. `ore` and `hills` are the field a
/// restart's seed gives.
pub fn take_event(
    state: &mut GameState,
    event: GameEvent,
    ore: Vec<OreDeposit>,
    hills: Vec<Hill>,
    colors: &Vec<String>,
    wording: &Wording,
)
    requires
        old(state).wf(),
        wording.wf(),
        colors@.len() == MAX_PLAYERS,
    ensures
        final(state).wf(),
        log_text(final(state).log@) == shown_if(
            log_text(old(state).log@),
            described(
                old(state).local_player,
                names(old(state).roster@, colors@),
                wording,
                event,
            ),
        ),
        match event {
            GameEvent::MatchReset { world_seed, .. } => {
                let known = old(state).world_seed == Some(world_seed);
                &&& final(state).snapshots@.len() == 0
                &&& final(state).pending_fx@.len() == 0
                &&& *final(state) == GameState {
                    world_seed: Some(world_seed),
                    ore: if known {
                        old(state).ore
                    } else {
                        ore
                    },
                    hills: if known {
                        old(state).hills
                    } else {
                        hills
                    },
                    winner: None,
                    prediction: Prediction {
                        active: false,
                        ..old(state).prediction
                    },
                    snapshots: final(state).snapshots,
                    pending_fx: final(state).pending_fx,
                    log: final(state).log,
                    ..*old(state)
                }
            },
            _ => *final(state) == (GameState { log: final(state).log, ..*old(state) }),
        },
{
    if let GameEvent::MatchReset { world_seed, by: _ } = event {
        state.begin_new_match(world_seed, ore, hills);
    }
    if let Some(line) = describe_event(state, event, colors, wording) {
        state.note(line);
    }
}

/// A client that has been refused leaves it at that.
pub proof fn lemma_a_refused_client_stays_refused(session: Session, elapsed: Elapsed)
    requires
        session.link is Denied,
    ensures
        session.duty_spec(elapsed) == (Duty { request: false, warn: false, reset: false }),
{
}

/// Silence is not a refusal: a client that hears nothing goes on asking.
pub proof fn lemma_silence_is_not_a_refusal(session: Session, elapsed: Elapsed)
    requires
        session.link == Link::Connecting,
        elapsed.since_request >= HANDSHAKE_RETRY,
    ensures
        session.duty_spec(elapsed).request,
        !session.duty_spec(elapsed).reset,
{
}

/// Everything that happens is put into words, but for what is nobody else's
/// business: somebody's tank, or their base gun, coming back.
pub proof fn lemma_what_is_said_of_an_event(
    me: Option<u8>,
    called: spec_fn(u8) -> Seq<char>,
    wording: &Wording,
    event: GameEvent,
)
    ensures
        described(me, called, wording, event) is None <==> match event {
            GameEvent::TankRespawned { player } => me != Some(player),
            GameEvent::SentinelRebuilt { player } => me != Some(player),
            _ => false,
        },
{
}

/// Whoever did it is named first, and whoever it was done to after them; a
/// player who wrecked their own tank is not told it was destroyed.
pub proof fn lemma_whoever_did_it_is_named_first(
    me: Option<u8>,
    called: spec_fn(u8) -> Seq<char>,
    wording: &Wording,
    by: u8,
    from: u8,
    amount: u32,
)
    requires
        by != from,
        me != Some(by),
        me != Some(from),
    ensures
        called(by).is_prefix_of(
            described(me, called, wording, GameEvent::MinerCaptured { by, from })->0,
        ),
        called(by).is_prefix_of(
            described(me, called, wording, GameEvent::TankDestroyed { player: from, by })->0,
        ),
        called(by).is_prefix_of(
            described(me, called, wording, GameEvent::OreSeized { by, from, amount })->0,
        ),
        called(from).is_suffix_of(
            described(me, called, wording, GameEvent::OreSeized { by, from, amount })->0,
        ),
        called(by).is_suffix_of(
            described(Some(from), called, wording, GameEvent::TankDestroyed { player: from, by })->0,
        ),
        called(from).is_suffix_of(
            described(Some(by), called, wording, GameEvent::OreSeized { by, from, amount })->0,
        ),
        called(by).is_prefix_of(
            described(Some(from), called, wording, GameEvent::OreSeized { by, from, amount })->0,
        ),
        called(from).is_prefix_of(
            described(me, called, wording, GameEvent::TankDestroyed { player: from, by: from })->0,
        ),
        called(by).is_prefix_of(
            described(me, called, wording, GameEvent::PlayerJoined { player: by })->0,
        ),
        called(by).is_prefix_of(
            described(me, called, wording, GameEvent::PlayerLeft { player: by })->0,
        ),
        called(by).is_prefix_of(
            described(me, called, wording, GameEvent::MinerDisabled { player: by })->0,
        ),
        called(by).is_prefix_of(
            described(me, called, wording, GameEvent::MinerRescued { player: by })->0,
        ),
        called(by).is_prefix_of(
            described(me, called, wording, GameEvent::SentinelDestroyed { player: by })->0,
        ),
        called(by).is_prefix_of(
            described(me, called, wording, GameEvent::PlayerEliminated { player: by })->0,
        ),
        called(by).is_prefix_of(
            described(me, called, wording, GameEvent::PlayerReturned { player: by })->0,
        ),
        called(by).is_prefix_of(
            described(me, called, wording, GameEvent::GameOver { winner: by })->0,
        ),
{
}

/// A refused purchase says why, and one that went through says what is left.
pub proof fn lemma_a_purchase_is_told(
    me: Option<u8>,
    called: spec_fn(u8) -> Seq<char>,
    wording: &Wording,
    powerup: crate::protocol::PowerUp,
    reason: crate::protocol::RejectReason,
)
    ensures
        wording.reject_spec(reason).is_suffix_of(
            described(me, called, wording, GameEvent::PurchaseRejected { powerup, reason })->0,
        ),
{
}

/// A client that is heard from stays connected, and one that has been silent too
/// long starts over; it is told once that nobody answers.
pub proof fn lemma_nobody_is_told_twice(session: Session, elapsed: Elapsed)
    requires
        session.warned_unanswered,
    ensures
        !session.duty_spec(elapsed).warn,
        session.link == Link::Connected && elapsed.since_heard <= SILENCE ==> !session.duty_spec(
            elapsed,
        ).reset,
{
}

} // verus!
