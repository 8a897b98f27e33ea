//! The connections, and what the match does about each packet.
//!
//! One machine runs this and acts as the manager of the match: it owns the
//! world, steps the simulation at a fixed rate, and answers every client with
//! its own view of the result. Clients never talk to each other.
//!
//! Nothing here prints. What would go straight to a terminal is pushed onto a
//! log the host drains, because a window cannot read one -- and because a line
//! worth printing is a line worth showing.

use std::collections::VecDeque;

use vstd::prelude::*;
use vstd::std_specs::vecdeque::*;
use vstd::string::*;

use crate::game::{
    disconnect_outcome, held_by, input_outcome, is_roster, join_outcome, launch_outcome,
    mode_outcome, purchase_outcome, restart_outcome, Game, Hill, OreDeposit,
};
use crate::measure::{gathered, listed_if, Stamp};
use crate::player::Player;
use crate::protocol::{
    DenyReason, GameEvent, GameStatus, InputFrame, MinerMode, PlayerInfo, PowerUp,
};
use crate::rules::Capacity;
use crate::text::{digits, push_decimal, quoted, quoted_text};
use crate::wording::Wording;

verus! {

/// Drop a connection after this long without a packet: eight seconds. The
/// player's state stays on the server so they can resume where they left off.
pub const TIMEOUT: Stamp = 0x4020_0000_0000_0000;

/// How recently a connection must have been heard from for a second client on
/// the same identity to count as a duplicate rather than a reconnect: half a
/// second.
///
/// A client that is playing sends input 30 times a second, so fifteen frames of
/// silence is already far more than a bad link produces. Kept short on purpose:
/// admitting a duplicate costs somebody a confusing match, but refusing a
/// genuine reconnect costs them their slot.
pub const DUPLICATE_WINDOW: Stamp = 0x3fe0_0000_0000_0000;

/// How many log lines are kept for a host that is not draining them. Old lines
/// go first: the recent ones are the ones anybody wants.
pub const LOG_KEPT: usize = 200;

/// A client being served.
#[derive(Clone, Copy, Debug, PartialEq, Eq, Structural)]
pub struct Connection {
    /// Where the client is, by the number its address goes under.
    pub peer: u64,
    pub player_id: u8,
    /// Set for a fresh or resumed connection, which needs every ore amount
    /// rather than the usual delta.
    pub needs_full_ore: bool,
}

/// What a client asking to connect is answered.
#[derive(Clone, Copy, Debug, PartialEq, Eq, Structural)]
pub enum Reply {
    /// The same answer again: requests are retransmitted until the client sees
    /// one.
    Again(u8),
    /// Let in. The client is welcomed, and everybody is sent the roster.
    Welcome(u8),
    Deny(DenyReason),
}

/// What a client asks for over the reliable stream, with what it takes to do
/// it.
#[derive(Debug)]
pub enum Order {
    Purchase { powerup: PowerUp, tank_holds: Capacity, miner_holds: Capacity },
    LaunchPlane { holds: Capacity },
    ToggleCheats,
    SetMinerMode(MinerMode),
    Leave,
    Input(InputFrame),
    NewGame { seed: u64, ore: Vec<OreDeposit>, hills: Vec<Hill> },
}

/// What one player looks like from outside, for a status line or a table.
#[derive(Clone, Debug)]
pub struct PlayerStatus {
    pub id: u8,
    pub name: String,
    pub ore_mined: u32,
    pub captures: u8,
    pub connected: bool,
    /// Round trip time in milliseconds, for a player currently connected.
    pub rtt_ms: Option<u32>,
}

/// A snapshot of the match, for whoever is hosting it to show.
#[derive(Clone, Debug)]
pub struct Status {
    pub seed: u64,
    pub tick: u32,
    pub state: GameStatus,
    pub players: Vec<PlayerStatus>,
}

/// What every client is told after a tick.
#[derive(Debug)]
pub struct Bulletin {
    pub events: Vec<GameEvent>,
    /// There when somebody came or went.
    pub roster: Option<Vec<PlayerInfo>>,
    /// Whether this is the tick on which everybody is told of every deposit.
    pub full_ore: bool,
}

pub struct Server {
    pub game: Game,
    pub connections: Vec<Connection>,
    pub log: VecDeque<String>,
}

/// The connection a client is served under.
pub open spec fn serves(connections: Seq<Connection>, peer: u64, i: int) -> bool {
    0 <= i < connections.len() && connections[i].peer == peer
}

/// The connection a player is served over.
pub open spec fn carries(connections: Seq<Connection>, player_id: u8, i: int) -> bool {
    0 <= i < connections.len() && connections[i].player_id == player_id
}

/// The connections that are not a player's.
pub open spec fn not_carrying(connections: Seq<Connection>, player_id: u8, n: nat) -> Seq<Connection> {
    gathered(n, |i: int| listed_if(connections[i].player_id != player_id, connections[i]))
}

/// Every connection, owed every ore amount.
pub open spec fn all_owed(connections: Seq<Connection>) -> Seq<Connection> {
    Seq::new(
        connections.len(),
        |i: int| Connection { needs_full_ore: true, ..connections[i] },
    )
}

/// No address twice, and no player twice.
pub open spec fn connections_wf(connections: Seq<Connection>) -> bool {
    forall|i: int, j: int|
        0 <= i < j < connections.len() ==> (#[trigger] connections[i]).peer != (
        #[trigger] connections[j]).peer && connections[i].player_id != connections[j].player_id
}

/// Whether everybody served is in the match.
pub open spec fn all_in_match(connections: Seq<Connection>, players: Seq<Option<Player>>) -> bool {
    forall|i: int|
        0 <= i < connections.len() ==> ((#[trigger] connections[i]).player_id as int)
            < players.len() && players[connections[i].player_id as int] is Some
}

/// What the log says.
pub open spec fn lines(log: Seq<String>) -> Seq<Seq<char>> {
    log.map_values(|s: String| s@)
}

/// A log with one line more, and the oldest gone if there was no room.
pub open spec fn noted(log: Seq<Seq<char>>, line: Seq<char>) -> Seq<Seq<char>> {
    if log.len() >= LOG_KEPT {
        log.skip(1).push(line)
    } else {
        log.push(line)
    }
}

/// What a player is called, if there is one.
pub open spec fn called(p: Option<Player>) -> Seq<char> {
    match p {
        Some(p) => p.name@,
        None => "?"@,
    }
}

pub open spec fn duplicate_line(from: Seq<char>, who: Seq<char>) -> Seq<char> {
    "refused "@ + from + ": "@ + who + " is already playing from another window"@
}

pub open spec fn refused_line(from: Seq<char>, name: Seq<char>, why: Seq<char>) -> Seq<char> {
    "refused "@ + from + " ("@ + quoted_text(name) + "): "@ + why
}

pub open spec fn connected_line(id: u8, who: Seq<char>, from: Seq<char>) -> Seq<char> {
    "player "@ + digits(id as nat) + " ("@ + who + ") connected from "@ + from
}

pub open spec fn timed_out_line(id: u8, from: Seq<char>) -> Seq<char> {
    "player "@ + digits(id as nat) + " timed out ("@ + from + "); state retained"@
}

pub open spec fn left_line(id: u8) -> Seq<char> {
    "player "@ + digits(id as nat) + " left"@
}

pub open spec fn disconnected_line(id: u8) -> Seq<char> {
    "player "@ + digits(id as nat) + " disconnected"@
}

pub open spec fn restarted_line(id: u8, seed: u64) -> Seq<char> {
    "player "@ + digits(id as nat) + " started a new match (seed "@ + digits(seed as nat) + ")"@
}

pub open spec fn host_restarted_line(seed: u64) -> Seq<char> {
    "the host started a new match (seed "@ + digits(seed as nat) + ")"@
}

fn player_line(id: u8, rest: &str) -> (r: String)
    ensures
        r@ == "player "@ + digits(id as nat) + rest@,
{
    let mut out = "player ".to_owned();
    push_decimal(&mut out, id as u64);
    out.append(rest);
    out
}

/// Whether somebody is already playing under an identity, from an address that
/// was heard from a moment ago.
///
/// A second client on the same identity is the duplicate-name case that a join
/// cannot see: the client hashes the name into its token, so two players called
/// the same arrive as one. Resuming would retire the first connection, whose
/// client then handshakes again and retires the second, forever. Liveness
/// decides it rather than whether a player is marked connected: a client that
/// crashed goes quiet immediately, so restarting it is still allowed.
pub open spec fn live_duplicate(server: &Server, token: u64, quiet: Seq<Stamp>) -> bool {
    exists|slot: int, i: int|
        #![trigger held_by(server.game.players@, token, slot), carries(
            server.connections@,
            slot as u8,
            i,
        )]
        {
            &&& held_by(server.game.players@, token, slot)
            &&& carries(server.connections@, slot as u8, i)
            &&& quiet[i] < DUPLICATE_WINDOW
        }
}

/// What a request to connect does to the server.
pub open spec fn connect_outcome(
    before: &Server,
    after: &Server,
    peer: u64,
    from: Seq<char>,
    token: u64,
    name: Seq<char>,
    quiet: Seq<Stamp>,
    wording: &Wording,
    r: Reply,
) -> bool {
    if exists|i: int| serves(before.connections@, peer, i) {
        &&& exists|i: int|
            serves(before.connections@, peer, i) && r == Reply::Again(
                before.connections@[i].player_id,
            )
        &&& *after == *before
    } else if live_duplicate(before, token, quiet) {
        &&& r == Reply::Deny(DenyReason::NameTaken)
        &&& after.game == before.game
        &&& after.connections == before.connections
        &&& exists|slot: int|
            #![trigger held_by(before.game.players@, token, slot)]
            held_by(before.game.players@, token, slot) && lines(after.log@) =~= noted(
                lines(before.log@),
                duplicate_line(from, before.game.players@[slot]->0.name@),
            )
    } else {
        match r {
            Reply::Again(_) => false,
            Reply::Welcome(id) => {
                &&& join_outcome(&before.game, &after.game, token, name, Ok(id))
                &&& after.connections@ =~= not_carrying(
                    before.connections@,
                    id,
                    before.connections@.len(),
                ).push(Connection { peer, player_id: id, needs_full_ore: true })
                &&& lines(after.log@) =~= noted(
                    lines(before.log@),
                    connected_line(id, called(after.game.player_spec(id)), from),
                )
            },
            Reply::Deny(reason) => {
                &&& join_outcome(&before.game, &after.game, token, name, Err(reason))
                &&& after.connections@ =~= before.connections@
                &&& lines(after.log@) =~= noted(
                    lines(before.log@),
                    refused_line(from, name, wording.deny_spec(reason)),
                )
            },
        }
    }
}

/// What a client's order does to the server. `at` is the connection it came in
/// on.
pub open spec fn order_outcome(before: &Server, after: &Server, at: int, order: Order) -> bool {
    let id = before.connections@[at].player_id;
    match order {
        Order::Leave => {
            &&& disconnect_outcome(&before.game, &after.game, id)
            &&& after.connections@ =~= before.connections@.remove(at)
            &&& lines(after.log@) =~= noted(lines(before.log@), left_line(id))
        },
        Order::NewGame { seed, ore, hills } => {
            &&& restart_outcome(&before.game, &after.game, seed, id, ore, hills)
            &&& after.connections@ =~= all_owed(before.connections@)
            &&& lines(after.log@) =~= noted(lines(before.log@), restarted_line(id, seed))
        },
        _ => {
            &&& after.connections == before.connections
            &&& after.log == before.log
            &&& match order {
                Order::Purchase { powerup, tank_holds, miner_holds } => purchase_outcome(
                    &before.game,
                    &after.game,
                    id,
                    powerup,
                    tank_holds,
                    miner_holds,
                ),
                Order::LaunchPlane { holds } => launch_outcome(
                    &before.game,
                    &after.game,
                    id,
                    holds,
                ),
                Order::ToggleCheats => after.game == Game {
                    cheats: !before.game.cheats,
                    ..before.game
                },
                Order::SetMinerMode(mode) => mode_outcome(&before.game, &after.game, id, mode),
                Order::Input(frame) => input_outcome(&before.game, &after.game, id, frame),
                _ => true,
            }
        },
    }
}

/// Whether an event changes who is in the match.
pub open spec fn changes_roster(event: GameEvent) -> bool {
    event is PlayerJoined || event is PlayerLeft
}

/// Whether anybody came or went.
pub open spec fn roster_due(events: Seq<GameEvent>) -> bool {
    exists|i: int| 0 <= i < events.len() && changes_roster(#[trigger] events[i])
}

/// What a player looks like from outside.
pub open spec fn is_status_of(p: Player, connections: Seq<Connection>, rtts: Seq<u32>, s: PlayerStatus) -> bool {
    &&& s.id == p.id
    &&& s.name@ == p.name@
    &&& s.ore_mined == p.ore_mined
    &&& s.captures == p.captures
    &&& s.connected == p.connected
    &&& match s.rtt_ms {
        Some(ms) => exists|i: int| carries(connections, p.id, i) && rtts[i] == ms,
        None => forall|i: int| !carries(connections, p.id, i),
    }
}

/// The slots that hold a player, in order.
pub open spec fn taken_slots(players: Seq<Option<Player>>, n: nat) -> Seq<int> {
    gathered(n, |i: int| listed_if(players[i] is Some, i))
}

impl Server {
    /// The match is sound, no client and no player is served twice, everybody
    /// served is in the match, and the log holds no more than it should.
    pub open spec fn wf(&self) -> bool {
        &&& self.game.wf()
        &&& connections_wf(self.connections@)
        &&& all_in_match(self.connections@, self.game.players@)
        &&& self.log@.len() <= LOG_KEPT
    }

    /// A server with nobody connected, running a match.
    pub fn new(game: Game) -> (r: Self)
        requires
            game.wf(),
        ensures
            r.wf(),
            r.game == game,
            r.connections@.len() == 0,
            r.log@.len() == 0,
    {
        Server { game, connections: Vec::new(), log: VecDeque::new() }
    }

    pub fn seed(&self) -> (r: u64)
        ensures
            r == self.game.seed,
    {
        self.game.seed
    }

    /// Writes a line in the log.
    pub fn note(&mut self, line: String)
        requires
            old(self).log@.len() <= LOG_KEPT,
        ensures
            final(self).log@.last()@ == line@,
            old(self).log@.len() < LOG_KEPT ==> final(self).log@.len() == old(self).log@.len() + 1,
            old(self).log@.len() == LOG_KEPT ==> final(self).log@.len() == LOG_KEPT,
            forall|k: int|
                0 <= k < final(self).log@.len() - 1 ==> #[trigger] final(self).log@[k] == old(self).log@[k
                    + old(self).log@.len() + 1 - final(self).log@.len()],
            *final(self) == (Server { log: final(self).log, ..*old(self) }),
            lines(final(self).log@) == noted(lines(old(self).log@), line@),
            final(self).log@.len() <= LOG_KEPT,
    {
        if self.log.len() >= LOG_KEPT {
            self.log.pop_front();
        }
        self.log.push_back(line);
        assert(lines(self.log@) =~= noted(lines(old(self).log@), line@));
    }

    /// Takes the log lines written since the last call.
    pub fn drain_log(&mut self) -> (r: Vec<String>)
        ensures
            *final(self) == (Server { log: final(self).log, ..*old(self) }),
            final(self).log@.len() == 0,
            r@ == old(self).log@,
    {
        let mut out: Vec<String> = Vec::new();
        while self.log.len() > 0
            invariant
                *self == (Server { log: self.log, ..*old(self) }),
                out@ + self.log@ == old(self).log@,
            decreases self.log@.len(),
        {
            let ghost before = self.log@;
            if let Some(line) = self.log.pop_front() {
                out.push(line);
            }
            assert(out@ + self.log@ =~= old(self).log@);
        }
        assert(out@ =~= old(self).log@);
        out
    }

    /// The connection a client is served under, if it is.
    pub fn connection_of(&self, peer: u64) -> (r: Option<usize>)
        ensures
            match r {
                Some(i) => i < self.connections@.len() && self.connections@[i as int].peer == peer,
                None => forall|i: int|
                    0 <= i < self.connections@.len() ==> (#[trigger] self.connections@[i]).peer != peer,
            },
            match r {
                Some(i) => serves(self.connections@, peer, i as int),
                None => forall|i: int| !serves(self.connections@, peer, i),
            },
    {
        let mut i: usize = 0;
        while i < self.connections.len()
            invariant
                i <= self.connections@.len(),
                forall|k: int| 0 <= k < i ==> !serves(self.connections@, peer, k),
            decreases self.connections.len() - i,
        {
            if self.connections[i].peer == peer {
                return Some(i);
            }
            i = i + 1;
        }
        assert forall|k: int| 0 <= k < self.connections@.len() implies (
        #[trigger] self.connections@[k]).peer != peer by {
            assert(!serves(self.connections@, peer, k));
        }
        None
    }

    /// The connection a player is served over, if they are.
    pub fn connection_to(&self, player_id: u8) -> (r: Option<usize>)
        ensures
            match r {
                Some(i) => i < self.connections@.len() && self.connections@[i as int].player_id
                    == player_id,
                None => forall|i: int|
                    0 <= i < self.connections@.len() ==> (#[trigger] self.connections@[i]).player_id
                        != player_id,
            },
            match r {
                Some(i) => carries(self.connections@, player_id, i as int),
                None => forall|i: int| !carries(self.connections@, player_id, i),
            },
    {
        let mut i: usize = 0;
        while i < self.connections.len()
            invariant
                i <= self.connections@.len(),
                forall|k: int| 0 <= k < i ==> !carries(self.connections@, player_id, k),
            decreases self.connections.len() - i,
        {
            if self.connections[i].player_id == player_id {
                return Some(i);
            }
            i = i + 1;
        }
        assert forall|k: int| 0 <= k < self.connections@.len() implies (
        #[trigger] self.connections@[k]).player_id != player_id by {
            assert(!carries(self.connections@, player_id, k));
        }
        None
    }

    fn retire(&mut self, player_id: u8)
        requires
            connections_wf(old(self).connections@),
        ensures
            forall|i: int|
                0 <= i < final(self).connections@.len() ==> (#[trigger] final(self).connections@[i]).player_id
                    != player_id,
            forall|k: int|
                0 <= k < old(self).connections@.len() && (#[trigger] old(self).connections@[k]).player_id
                    != player_id ==> final(self).connections@.contains(old(self).connections@[k]),
            *final(self) == (Server { connections: final(self).connections, ..*old(self) }),
            final(self).connections@ == not_carrying(
                old(self).connections@,
                player_id,
                old(self).connections@.len(),
            ),
    {
        let mut kept: Vec<Connection> = Vec::new();
        let mut i: usize = 0;
        while i < self.connections.len()
            invariant
                i <= self.connections@.len(),
                kept@ == not_carrying(self.connections@, player_id, i as nat),
            decreases self.connections.len() - i,
        {
            let c = self.connections[i];
            if c.player_id != player_id {
                kept.push(c);
            }
            i = i + 1;
        }
        self.connections = kept;
        proof {
            let all = old(self).connections@;
            lemma_retired(all, player_id, all.len());
            assert forall|k: int| 0 <= k < all.len() && (#[trigger] all[k]).player_id
                != player_id implies kept@.contains(all[k]) by {
                lemma_kept(all, player_id, all.len(), k);
            }
        }
    }

    /// Answers a client that asks to connect. `from` is its address in writing,
    /// and `quiet` how long each connection has been silent.
    pub fn connect(
        &mut self,
        peer: u64,
        from: &str,
        token: u64,
        name: &str,
        quiet: &Vec<Stamp>,
        wording: &Wording,
    ) -> (r: Reply)
        requires
            old(self).wf(),
            quiet@.len() == old(self).connections@.len(),
        ensures
            r is Again <==> exists|i: int|
                0 <= i < old(self).connections@.len() && (#[trigger] old(self).connections@[i]).peer
                    == peer,
            r is Again ==> exists|i: int|
                0 <= i < old(self).connections@.len() && (#[trigger] old(self).connections@[i]).peer
                    == peer && old(self).connections@[i].player_id == r->Again_0,
            r is Again ==> *final(self) == *old(self),
            r !is Again && (exists|slot: int, i: int|
                0 <= slot < old(self).game.players@.len() && 0 <= i < old(self).connections@.len() && (
                #[trigger] old(self).game.players@[slot]) is Some && old(
                    self,
                ).game.players@[slot]->0.token == token && (
                #[trigger] old(self).connections@[i]).player_id == slot && quiet@[i] < DUPLICATE_WINDOW)
                ==> r == Reply::Deny(DenyReason::NameTaken),
            r is Welcome ==> {
                let c = final(self).connections@.last();
                &&& c.peer == peer && c.player_id == r->Welcome_0 && c.needs_full_ore
                &&& (r->Welcome_0 as int) < final(self).game.players@.len()
                &&& final(self).game.players@[r->Welcome_0 as int] is Some
                &&& final(self).game.players@[r->Welcome_0 as int]->0.token == token
                &&& final(self).game.players@[r->Welcome_0 as int]->0.connected
            },
            r is Deny ==> final(self).connections@ =~= old(self).connections@ && final(self).game.players@ =~= old(self).game.players@,
            final(self).wf(),
            connect_outcome(
                old(self),
                final(self),
                peer,
                from@,
                token,
                name@,
                quiet@,
                wording,
                r,
            ),
    {
        if let Some(i) = self.connection_of(peer) {
            assert(self.connections@[i as int].peer == peer);
            return Reply::Again(self.connections[i].player_id);
        }
        proof {
            assert forall|slot: int, i: int|
                0 <= slot < self.game.players@.len() && 0 <= i < self.connections@.len() && (
                #[trigger] self.game.players@[slot]) is Some && self.game.players@[slot]->0.token
                    == token && (#[trigger] self.connections@[i]).player_id == slot && quiet@[i]
                    < DUPLICATE_WINDOW implies live_duplicate(self, token, quiet@) by {
                assert(held_by(self.game.players@, token, slot));
                assert(carries(self.connections@, slot as u8, i));
            }
        }
        let mut who: Option<String> = None;
        if let Some(p) = self.game.player_by_token(token) {
            let id: u8 = p.id;
            let ghost slot = choose|slot: int|
                #[trigger] held_by(self.game.players@, token, slot) && self.game.players@[slot]
                    == Some(*p);
            assert(id == slot);
            if let Some(i) = self.connection_to(id) {
                assert(carries(self.connections@, slot as u8, i as int));
                if quiet[i] < DUPLICATE_WINDOW {
                    assert(live_duplicate(self, token, quiet@));
                    who = Some(p.name.clone());
                } else {
                    assert(!live_duplicate(self, token, quiet@)) by {
                        lemma_only_duplicate(self, token, quiet@, slot, i as int);
                    }
                }
            } else {
                assert(!live_duplicate(self, token, quiet@)) by {
                    if live_duplicate(self, token, quiet@) {
                        let (s, k) = choose|s: int, k: int|
                            #![trigger held_by(self.game.players@, token, s), carries(
                                self.connections@,
                                s as u8,
                                k,
                            )]
                            held_by(self.game.players@, token, s) && carries(
                                self.connections@,
                                s as u8,
                                k,
                            ) && quiet@[k] < DUPLICATE_WINDOW;
                        lemma_one_holder(&self.game, token, s, slot);
                        assert(!carries(self.connections@, id, k));
                    }
                }
            }
        }
        if let Some(name) = who {
            let mut line = "refused ".to_owned();
            line.append(from);
            line.append(": ");
            line.append(name.as_str());
            line.append(" is already playing from another window");
            self.note(line);
            return Reply::Deny(DenyReason::NameTaken);
        }
        match self.game.join(token, name) {
            Ok(id) => {
                // The same player reconnecting from a new address: retire the
                // old connection rather than serving both.
                let ghost held = self.connections@;
                self.retire(id);
                proof {
                    lemma_retired(held, id, held.len());
                }
                self.connections.push(Connection { peer, player_id: id, needs_full_ore: true });
                assert(connections_wf(self.connections@)) by {
                    assert forall|i: int, j: int|
                        0 <= i < j < self.connections@.len() implies (
                    #[trigger] self.connections@[i]).peer != (#[trigger] self.connections@[j]).peer
                        && self.connections@[i].player_id != self.connections@[j].player_id by {
                        if j == self.connections@.len() - 1 {
                            let k = choose|k: int|
                                0 <= k < held.len() && held[k] == self.connections@[i];
                            assert(!serves(held, peer, k));
                        }
                    }
                }
                let mut rest = " (".to_owned();
                match self.game.player(id) {
                    Some(p) => {
                        rest.append(p.name.as_str());
                    },
                    None => {
                        rest.append("?");
                    },
                }
                rest.append(") connected from ");
                rest.append(from);
                let line = player_line(id, rest.as_str());
                assert(line@ =~= connected_line(id, called(self.game.player_spec(id)), from@));
                self.note(line);
                Reply::Welcome(id)
            },
            Err(reason) => {
                let mut line = "refused ".to_owned();
                line.append(from);
                line.append(" (");
                let shown = quoted(name);
                line.append(shown.as_str());
                line.append("): ");
                line.append(wording.deny(reason));
                self.note(line);
                Reply::Deny(reason)
            },
        }
    }

    /// Does what a client asked for. Says whether the client left.
    pub fn obey(&mut self, at: usize, order: Order) -> (left: bool)
        requires
            old(self).wf(),
            at < old(self).connections@.len(),
            order is NewGame ==> order->ore@.len() <= 0x1_0000,
        ensures
            order is Leave ==> final(self).connections@.len() == old(self).connections@.len() - 1 && forall|
                i: int,
            |
                0 <= i < final(self).connections@.len() ==> (#[trigger] final(self).connections@[i]).peer
                    != old(self).connections@[at as int].peer,
            order !is Leave && order !is NewGame ==> final(self).connections@ =~= old(self).connections@,
            order is NewGame ==> final(self).game.seed == order->seed && forall|i: int|
                0 <= i < final(self).connections@.len() ==> (#[trigger] final(self).connections@[i]).needs_full_ore,
            order !is NewGame ==> forall|k: int|
                0 <= k < old(self).game.players@.len() && k != old(
                    self,
                ).connections@[at as int].player_id ==> #[trigger] final(self).game.players@[k] == old(
                    self,
                ).game.players@[k],
            final(self).wf(),
            order_outcome(old(self), final(self), at as int, order),
            left == (order is Leave),
    {
        let id = self.connections[at].player_id;
        match order {
            Order::Purchase { powerup, tank_holds, miner_holds } => {
                self.game.purchase(id, powerup, tank_holds, miner_holds);
            },
            Order::LaunchPlane { holds } => {
                self.game.launch_plane(id, holds);
            },
            Order::ToggleCheats => {
                self.game.toggle_cheats();
            },
            Order::SetMinerMode(mode) => {
                self.game.set_miner_mode(id, mode);
            },
            Order::Leave => {
                self.note(player_line(id, " left"));
                self.game.disconnect(id);
                self.connections.remove(at);
                return true;
            },
            Order::Input(frame) => {
                self.game.set_input(id, frame);
            },
            Order::NewGame { seed, ore, hills } => {
                self.game.restart(seed, id, ore, hills);
                self.owe_everything();
                let mut rest = " started a new match (seed ".to_owned();
                push_decimal(&mut rest, seed);
                rest.append(")");
                let line = player_line(id, rest.as_str());
                assert(line@ =~= restarted_line(id, seed));
                self.note(line);
            },
        }
        false
    }

    /// Does what an unreliable payload asks for: input, and nothing else.
    pub fn obey_unreliable(&mut self, at: usize, order: Order)
        requires
            old(self).wf(),
            at < old(self).connections@.len(),
        ensures
            final(self).wf(),
            match order {
                Order::Input(_) => order_outcome(old(self), final(self), at as int, order),
                _ => *final(self) == *old(self),
            },
    {
        if let Order::Input(frame) = order {
            let id = self.connections[at].player_id;
            self.game.set_input(id, frame);
        }
    }

    /// Every client is holding ore amounts for a map that no longer exists, and
    /// deltas cannot repair that.
    fn owe_everything(&mut self)
        ensures
            final(self).connections@.len() == old(self).connections@.len(),
            forall|k: int|
                0 <= k < old(self).connections@.len() ==> {
                    let (was, is) = (old(self).connections@[k], #[trigger] final(self).connections@[k]);
                    is.needs_full_ore && is.peer == was.peer && is.player_id == was.player_id
                },
            *final(self) == (Server { connections: final(self).connections, ..*old(self) }),
            final(self).connections@ == all_owed(old(self).connections@),
    {
        let mut i: usize = 0;
        while i < self.connections.len()
            invariant
                i <= self.connections@.len(),
                self.connections@.len() == old(self).connections@.len(),
                *self == (Server { connections: self.connections, ..*old(self) }),
                forall|k: int|
                    0 <= k < i ==> #[trigger] self.connections@[k] == all_owed(
                        old(self).connections@,
                    )[k],
                forall|k: int|
                    i <= k < self.connections@.len() ==> #[trigger] self.connections@[k] == old(
                        self,
                    ).connections@[k],
            decreases self.connections.len() - i,
        {
            let mut c = self.connections[i];
            c.needs_full_ore = true;
            self.connections[i] = c;
            i = i + 1;
        }
    }

    /// Restarts the match on a fresh map, the way a player asking for one does.
    /// `host` is who the host goes under in the events.
    pub fn new_match(&mut self, host: u8, seed: u64, ore: Vec<OreDeposit>, hills: Vec<Hill>)
        requires
            old(self).wf(),
            ore@.len() <= 0x1_0000,
        ensures
            final(self).wf(),
            restart_outcome(&old(self).game, &final(self).game, seed, host, ore, hills),
            final(self).connections@ == all_owed(old(self).connections@),
            lines(final(self).log@) == noted(lines(old(self).log@), host_restarted_line(seed)),
    {
        self.game.restart(seed, host, ore, hills);
        self.owe_everything();
        let mut line = "the host started a new match (seed ".to_owned();
        push_decimal(&mut line, seed);
        line.append(")");
        self.note(line);
    }

    /// Lets a client go that says it is going. Says whether it was being served.
    pub fn disconnected(&mut self, peer: u64) -> (r: bool)
        requires
            old(self).wf(),
        ensures
            final(self).wf(),
            r == exists|i: int| serves(old(self).connections@, peer, i),
            if r {
                exists|i: int|
                    {
                        let id = old(self).connections@[i].player_id;
                        &&& #[trigger] serves(old(self).connections@, peer, i)
                        &&& disconnect_outcome(&old(self).game, &final(self).game, id)
                        &&& final(self).connections@ =~= old(self).connections@.remove(i)
                        &&& lines(final(self).log@) =~= noted(
                            lines(old(self).log@),
                            disconnected_line(id),
                        )
                    }
            } else {
                *final(self) == *old(self)
            },
    {
        match self.connection_of(peer) {
            Some(i) => {
                let id = self.connections[i].player_id;
                self.connections.remove(i);
                self.note(player_line(id, " disconnected"));
                self.game.disconnect(id);
                true
            },
            None => false,
        }
    }

    /// The first connection that has been silent too long.
    pub fn first_silent(&self, quiet: &Vec<Stamp>) -> (r: Option<usize>)
        ensures
            match r {
                Some(i) => i < quiet@.len() && quiet@[i as int] > TIMEOUT && forall|k: int|
                    0 <= k < i ==> #[trigger] quiet@[k] <= TIMEOUT,
                None => forall|k: int| 0 <= k < quiet@.len() ==> #[trigger] quiet@[k] <= TIMEOUT,
            },
    {
        let mut i: usize = 0;
        while i < quiet.len()
            invariant
                i <= quiet@.len(),
                forall|k: int| 0 <= k < i ==> #[trigger] quiet@[k] <= TIMEOUT,
            decreases quiet.len() - i,
        {
            if quiet[i] > TIMEOUT {
                return Some(i);
            }
            i = i + 1;
        }
        None
    }

    /// Drops a silent connection. The player's state is retained.
    pub fn time_out(&mut self, at: usize, from: &str)
        requires
            old(self).wf(),
            at < old(self).connections@.len(),
        ensures
            final(self).wf(),
            ({
                let id = old(self).connections@[at as int].player_id;
                &&& disconnect_outcome(&old(self).game, &final(self).game, id)
                &&& final(self).connections@ =~= old(self).connections@.remove(at as int)
                &&& lines(final(self).log@) =~= noted(
                    lines(old(self).log@),
                    timed_out_line(id, from@),
                )
            }),
    {
        let id = self.connections[at].player_id;
        self.connections.remove(at);
        let mut rest = " timed out (".to_owned();
        rest.append(from);
        rest.append("); state retained");
        let line = player_line(id, rest.as_str());
        assert(line@ =~= timed_out_line(id, from@));
        self.note(line);
        self.game.disconnect(id);
    }

    /// Lets everybody go, and says whom to tell.
    ///
    /// Without being told, clients sit through the eight-second timeout and then
    /// handshake into the dark, which looks like a network fault rather than a
    /// host who shut the game down.
    pub fn goodbye(&mut self) -> (r: Vec<u64>)
        ensures
            *final(self) == (Server { connections: final(self).connections, ..*old(self) }),
            final(self).connections@.len() == 0,
            r@ == Seq::new(
                old(self).connections@.len(),
                |i: int| old(self).connections@[i].peer,
            ),
    {
        let mut out: Vec<u64> = Vec::new();
        let mut i: usize = 0;
        while i < self.connections.len()
            invariant
                i <= self.connections@.len(),
                *self == *old(self),
                out@ =~= Seq::new(i as nat, |k: int| old(self).connections@[k].peer),
            decreases self.connections.len() - i,
        {
            out.push(self.connections[i].peer);
            i = i + 1;
        }
        self.connections.clear();
        out
    }

    /// Takes what every client is to be told of the tick. Events are match-wide,
    /// so every connection gets the same.
    pub fn bulletin(&mut self) -> (r: Bulletin)
        requires
            old(self).wf(),
        ensures
            r.roster is Some <==> exists|i: int|
                0 <= i < old(self).game.events@.len() && ((
                #[trigger] old(self).game.events@[i]) is PlayerJoined || old(
                    self,
                ).game.events@[i] is PlayerLeft),
            final(self).wf(),
            *final(self) == (Server {
                game: Game { events: final(self).game.events, ..old(self).game },
                ..*old(self)
            }),
            final(self).game.events@.len() == 0,
            r.events@ == old(self).game.events@,
            r.full_ore == (old(self).game.tick % old(self).game.rules.ore_sync_interval == 0),
            r.roster is Some <==> roster_due(old(self).game.events@),
            r.roster is Some ==> is_roster(r.roster->0@, old(self).game.players@),
    {
        let mut events: Vec<GameEvent> = Vec::new();
        std::mem::swap(&mut events, &mut self.game.events);
        let mut changed: bool = false;
        let mut i: usize = 0;
        while i < events.len()
            invariant
                i <= events@.len(),
                changed == exists|k: int| 0 <= k < i && changes_roster(#[trigger] events@[k]),
            decreases events.len() - i,
        {
            match events[i] {
                GameEvent::PlayerJoined { player: _ } => {
                    changed = true;
                    assert(changes_roster(events@[i as int]));
                },
                GameEvent::PlayerLeft { player: _ } => {
                    changed = true;
                    assert(changes_roster(events@[i as int]));
                },
                _ => {
                    assert(!changes_roster(events@[i as int]));
                },
            }
            i = i + 1;
        }
        proof {
            if changed {
                let k = choose|k: int| 0 <= k < i && changes_roster(#[trigger] events@[k]);
                assert(events@[k] is PlayerJoined || events@[k] is PlayerLeft);
            } else {
                assert forall|k: int| 0 <= k < events@.len() implies !((
                #[trigger] events@[k]) is PlayerJoined || events@[k] is PlayerLeft) by {
                    assert(!changes_roster(events@[k]));
                }
            }
        }
        let roster: Option<Vec<PlayerInfo>> = if changed {
            Some(self.game.roster())
        } else {
            None
        };
        let full_ore = self.game.tick % self.game.rules.ore_sync_interval == 0;
        Bulletin { events, roster, full_ore }
    }

    /// Whether a client's next snapshot tells of every deposit, which settles
    /// what it was owed.
    pub fn full_ore_for(&mut self, at: usize, periodic: bool) -> (r: bool)
        requires
            old(self).wf(),
            at < old(self).connections@.len(),
        ensures
            final(self).wf(),
            r == (periodic || old(self).connections@[at as int].needs_full_ore),
            *final(self) == (Server { connections: final(self).connections, ..*old(self) }),
            final(self).connections@ == old(self).connections@.update(
                at as int,
                Connection { needs_full_ore: false, ..old(self).connections@[at as int] },
            ),
    {
        let mut c = self.connections[at];
        let full = periodic || c.needs_full_ore;
        c.needs_full_ore = false;
        self.connections[at] = c;
        full
    }

    /// Everything worth showing about the match right now. `rtts` holds each
    /// connection's round trip.
    pub fn status(&self, rtts: &Vec<u32>) -> (r: Status)
        requires
            rtts@.len() == self.connections@.len(),
        ensures
            r.seed == self.game.seed,
            r.tick == self.game.tick,
            r.state == self.game.status,
            ({
                let slots = taken_slots(self.game.players@, self.game.players@.len());
                &&& r.players@.len() == slots.len()
                &&& forall|k: int|
                    0 <= k < slots.len() ==> is_status_of(
                        self.game.players@[slots[k]]->0,
                        self.connections@,
                        rtts@,
                        #[trigger] r.players@[k],
                    )
            }),
    {
        let mut players: Vec<PlayerStatus> = Vec::new();
        let mut i: usize = 0;
        while i < self.game.players.len()
            invariant
                i <= self.game.players@.len(),
                rtts@.len() == self.connections@.len(),
                players@.len() == taken_slots(self.game.players@, i as nat).len(),
                forall|k: int|
                    0 <= k < players@.len() ==> is_status_of(
                        self.game.players@[taken_slots(self.game.players@, i as nat)[k]]->0,
                        self.connections@,
                        rtts@,
                        #[trigger] players@[k],
                    ),
            decreases self.game.players.len() - i,
        {
            if let Some(p) = &self.game.players[i] {
                let rtt_ms: Option<u32> = match self.connection_to(p.id) {
                    Some(c) => {
                        assert(carries(self.connections@, p.id, c as int));
                        Some(rtts[c])
                    },
                    None => None,
                };
                players.push(
                    PlayerStatus {
                        id: p.id,
                        name: p.name.clone(),
                        ore_mined: p.ore_mined,
                        captures: p.captures,
                        connected: p.connected,
                        rtt_ms,
                    },
                );
            }
            i = i + 1;
        }
        Status { seed: self.game.seed, tick: self.game.tick, state: self.game.status, players }
    }
}

proof fn lemma_one_holder(game: &Game, token: u64, a: int, b: int)
    requires
        game.wf(),
        held_by(game.players@, token, a),
        held_by(game.players@, token, b),
    ensures
        a == b,
{
    if a < b {
        assert(game.players@[a]->0.token != game.players@[b]->0.token);
    } else if b < a {
        assert(game.players@[b]->0.token != game.players@[a]->0.token);
    }
}

proof fn lemma_only_duplicate(server: &Server, token: u64, quiet: Seq<Stamp>, slot: int, i: int)
    requires
        server.wf(),
        held_by(server.game.players@, token, slot),
        carries(server.connections@, slot as u8, i),
        quiet[i] >= DUPLICATE_WINDOW,
    ensures
        !live_duplicate(server, token, quiet),
{
    if live_duplicate(server, token, quiet) {
        let (s, k) = choose|s: int, k: int|
            #![trigger held_by(server.game.players@, token, s), carries(
                server.connections@,
                s as u8,
                k,
            )]
            held_by(server.game.players@, token, s) && carries(server.connections@, s as u8, k)
                && quiet[k] < DUPLICATE_WINDOW;
        lemma_one_holder(&server.game, token, s, slot);
        if i < k {
            assert(server.connections@[i].player_id != server.connections@[k].player_id);
        } else if k < i {
            assert(server.connections@[k].player_id != server.connections@[i].player_id);
        }
    }
}

/// Retiring a player's connections leaves the others as they were.
proof fn lemma_retired(connections: Seq<Connection>, id: u8, n: nat)
    requires
        n <= connections.len(),
        connections_wf(connections),
    ensures
        connections_wf(not_carrying(connections, id, n)),
        forall|i: int|
            0 <= i < not_carrying(connections, id, n).len() ==> {
                let c = #[trigger] not_carrying(connections, id, n)[i];
                &&& c.player_id != id
                &&& exists|k: int| 0 <= k < n && connections[k] == c
            },
    decreases n,
{
    if n > 0 {
        lemma_retired(connections, id, (n - 1) as nat);
        let before = not_carrying(connections, id, (n - 1) as nat);
        let now = not_carrying(connections, id, n);
        let last = connections[n - 1];
        assert(now == before + listed_if(last.player_id != id, last));
        assert forall|i: int| 0 <= i < now.len() implies {
            let c = #[trigger] now[i];
            &&& c.player_id != id
            &&& exists|k: int| 0 <= k < n && connections[k] == c
        } by {
            if i < before.len() {
                assert(now[i] == before[i]);
                let k = choose|k: int| 0 <= k < n - 1 && connections[k] == before[i];
                assert(connections[k] == now[i]);
            } else {
                assert(connections[n - 1] == now[i]);
            }
        }
        assert forall|i: int, j: int| 0 <= i < j < now.len() implies (#[trigger] now[i]).peer != (
        #[trigger] now[j]).peer && now[i].player_id != now[j].player_id by {
            assert(now[i] == before[i]);
            if j < before.len() {
                assert(now[j] == before[j]);
            } else {
                let k = choose|k: int| 0 <= k < n - 1 && connections[k] == before[i];
                assert(connections[k].peer != connections[n - 1].peer);
            }
        }
    }
}

/// A request that was answered already is answered alike, and changes nothing:
/// requests are retransmitted until the client sees an answer.
pub proof fn lemma_a_repeated_request_is_answered_alike(
    before: &Server,
    after: &Server,
    peer: u64,
    from: Seq<char>,
    token: u64,
    name: Seq<char>,
    quiet: Seq<Stamp>,
    wording: &Wording,
    r: Reply,
    i: int,
)
    requires
        before.wf(),
        serves(before.connections@, peer, i),
        connect_outcome(before, after, peer, from, token, name, quiet, wording, r),
    ensures
        r == Reply::Again(before.connections@[i].player_id),
        *after == *before,
{
    let k = choose|k: int|
        serves(before.connections@, peer, k) && r == Reply::Again(
            before.connections@[k].player_id,
        );
    if k < i {
        assert(before.connections@[k].peer != before.connections@[i].peer);
    } else if i < k {
        assert(before.connections@[i].peer != before.connections@[k].peer);
    }
}

/// A client that is refused disturbs nobody: the match and the other clients
/// are as they were.
pub proof fn lemma_a_refused_client_disturbs_nobody(
    before: &Server,
    after: &Server,
    peer: u64,
    from: Seq<char>,
    token: u64,
    name: Seq<char>,
    quiet: Seq<Stamp>,
    wording: &Wording,
    reason: DenyReason,
)
    requires
        before.wf(),
        connect_outcome(
            before,
            after,
            peer,
            from,
            token,
            name,
            quiet,
            wording,
            Reply::Deny(reason),
        ),
    ensures
        after.game.players@ =~= before.game.players@,
        after.game.events@ =~= before.game.events@,
        after.game == (Game {
            players: after.game.players,
            events: after.game.events,
            ..before.game
        }),
        after.connections@ =~= before.connections@,
{
}

/// A player is served over one connection: a client that is let in takes over
/// from whatever served its player before, is owed every ore amount, and leaves
/// the connections of the others as they were.
pub proof fn lemma_a_welcome_takes_over(
    before: &Server,
    after: &Server,
    peer: u64,
    from: Seq<char>,
    token: u64,
    name: Seq<char>,
    quiet: Seq<Stamp>,
    wording: &Wording,
    id: u8,
)
    requires
        before.wf(),
        connect_outcome(before, after, peer, from, token, name, quiet, wording, Reply::Welcome(id)),
    ensures
        after.connections@.last() == (Connection { peer, player_id: id, needs_full_ore: true }),
        forall|i: int| #[trigger]
            carries(after.connections@, id, i) <==> i == after.connections@.len() - 1,
        forall|c: Connection|
            c.player_id != id ==> (#[trigger] after.connections@.contains(c)
                <==> before.connections@.contains(c)),
{
    let n = before.connections@.len();
    let kept = not_carrying(before.connections@, id, n);
    lemma_retired(before.connections@, id, n);
    assert(after.connections@ == kept.push(
        Connection { peer, player_id: id, needs_full_ore: true },
    ));
    assert forall|i: int| #[trigger] carries(after.connections@, id, i) implies i
        == after.connections@.len() - 1 by {
        if i < kept.len() {
            assert(kept[i].player_id != id);
        }
    }
    assert forall|c: Connection| c.player_id != id implies (#[trigger] after.connections@.contains(
        c,
    ) <==> before.connections@.contains(c)) by {
        if after.connections@.contains(c) {
            let i = choose|i: int|
                0 <= i < after.connections@.len() && after.connections@[i] == c;
            assert(kept[i] == c);
        }
        if before.connections@.contains(c) {
            let k = choose|k: int| 0 <= k < n && before.connections@[k] == c;
            lemma_kept(before.connections@, id, n, k);
            let i = choose|i: int| 0 <= i < kept.len() && kept[i] == c;
            assert(after.connections@[i] == c);
        }
    }
}

/// Retiring a player's connections keeps every other one.
proof fn lemma_kept(connections: Seq<Connection>, id: u8, n: nat, k: int)
    requires
        0 <= k < n <= connections.len(),
        connections[k].player_id != id,
    ensures
        not_carrying(connections, id, n).contains(connections[k]),
    decreases n,
{
    let before = not_carrying(connections, id, (n - 1) as nat);
    let now = not_carrying(connections, id, n);
    let last = connections[n - 1];
    assert(now == before + listed_if(last.player_id != id, last));
    if k == n - 1 {
        assert(now[before.len() as int] == last);
    } else {
        lemma_kept(connections, id, (n - 1) as nat, k);
        let i = choose|i: int| 0 <= i < before.len() && before[i] == connections[k];
        assert(now[i] == before[i]);
    }
}

/// An order is carried out for whoever sent it and for nobody else: only a new
/// match touches another player, or another player's connection.
pub proof fn lemma_an_order_is_its_senders(
    before: &Server,
    after: &Server,
    at: int,
    order: Order,
    k: int,
)
    requires
        before.wf(),
        0 <= at < before.connections@.len(),
        order_outcome(before, after, at, order),
        order !is NewGame,
        0 <= k < before.game.players@.len(),
        k != before.connections@[at].player_id,
    ensures
        after.game.players@[k] == before.game.players@[k],
        after.game.ore == before.game.ore,
        after.game.status == before.game.status,
        forall|c: Connection|
            c.player_id != before.connections@[at].player_id && before.connections@.contains(c)
                ==> #[trigger] after.connections@.contains(c),
{
    assert forall|c: Connection|
        c.player_id != before.connections@[at].player_id && before.connections@.contains(
            c,
        ) implies #[trigger] after.connections@.contains(c) by {
        let j = choose|j: int| 0 <= j < before.connections@.len() && before.connections@[j] == c;
        if order is Leave {
            if j < at {
                assert(after.connections@[j] == c);
            } else {
                assert(after.connections@[j - 1] == c);
            }
        } else {
            assert(after.connections@[j] == c);
        }
    }
}

/// Everybody in the match is in its status, in slot order, once each.
pub proof fn lemma_everybody_has_a_line(players: Seq<Option<Player>>, n: nat)
    requires
        n <= players.len(),
    ensures
        forall|k: int|
            0 <= k < taken_slots(players, n).len() ==> 0 <= #[trigger] taken_slots(players, n)[k] < n
                && players[taken_slots(players, n)[k]] is Some,
        forall|i: int|
            0 <= i < n && (#[trigger] players[i]) is Some ==> taken_slots(players, n).contains(i),
        forall|a: int, b: int|
            0 <= a < b < taken_slots(players, n).len() ==> #[trigger] taken_slots(players, n)[a]
                < #[trigger] taken_slots(players, n)[b],
    decreases n,
{
    if n > 0 {
        let m = (n - 1) as nat;
        lemma_everybody_has_a_line(players, m);
        let (before, all) = (taken_slots(players, m), taken_slots(players, n));
        assert(all == before + listed_if(players[n - 1] is Some, n - 1));
        assert forall|i: int| 0 <= i < n && (#[trigger] players[i]) is Some implies all.contains(
            i,
        ) by {
            if i < m {
                let k = choose|k: int| 0 <= k < before.len() && before[k] == i;
                assert(all[k] == i);
            } else {
                assert(all[before.len() as int] == i);
            }
        }
    }
}

/// Every line of the log about a player starts with their number, and one about
/// a connection says where it is from.
pub proof fn lemma_the_log_says_who(id: u8, who: Seq<char>, from: Seq<char>, seed: u64)
    ensures
        ("player "@ + digits(id as nat)).is_prefix_of(connected_line(id, who, from)),
        ("player "@ + digits(id as nat)).is_prefix_of(timed_out_line(id, from)),
        ("player "@ + digits(id as nat)).is_prefix_of(left_line(id)),
        ("player "@ + digits(id as nat)).is_prefix_of(disconnected_line(id)),
        ("player "@ + digits(id as nat)).is_prefix_of(restarted_line(id, seed)),
        from.is_suffix_of(connected_line(id, who, from)),
        ("player "@ + digits(id as nat) + " ("@ + who).is_prefix_of(connected_line(id, who, from)),
        (digits(seed as nat) + ")"@).is_suffix_of(restarted_line(id, seed)),
        (digits(seed as nat) + ")"@).is_suffix_of(host_restarted_line(seed)),
        ("refused "@ + from).is_prefix_of(duplicate_line(from, who)),
        ("refused "@ + from).is_prefix_of(refused_line(from, who, who)),
{
}

/// A new line of the log comes last, after what was there before it, and only
/// the oldest goes to make room.
pub proof fn lemma_the_newest_line_is_last(log: Seq<Seq<char>>, line: Seq<char>)
    requires
        log.len() <= LOG_KEPT,
    ensures
        noted(log, line).len() <= LOG_KEPT,
        noted(log, line).last() == line,
        log.len() < LOG_KEPT ==> noted(log, line).drop_last() =~= log,
        log.len() == LOG_KEPT ==> noted(log, line).drop_last() =~= log.skip(1),
{
}

} // verus!
