//! The command lines, and what the terminal is told.

use vstd::prelude::*;
use vstd::string::*;
use vstd::utf8::encode_utf8;

use crate::measure::gathered;
use crate::protocol::GameStatus;
use crate::server::{PlayerStatus, Status};
use crate::text::{digits, number_in, parse_u16, parse_u64, push_decimal, same_text};

verus! {

/// How a server is started.
#[derive(Clone, Debug)]
pub struct ServerArgs {
    pub bind: String,
    pub port: u16,
    pub seed: u64,
}

/// What the client's command line had to say, all of it optional: the connect
/// screen fills in whatever was left out.
#[derive(Clone, Debug)]
pub struct Args {
    pub server: Option<String>,
    pub name: Option<String>,
    pub token: Option<u64>,
    pub token_file: Option<String>,
}

/// What a command line comes to.
#[derive(Clone, Debug)]
pub enum Parsed<T> {
    Run(T),
    Help,
    Wrong(String),
}

/// A server's command line, as text and numbers.
pub struct ServerLine {
    pub bind: Seq<char>,
    pub port: u16,
    pub seed: u64,
}

/// A client's command line, as text and numbers.
pub struct ClientLine {
    pub server: Option<Seq<char>>,
    pub name: Option<Seq<char>>,
    pub token: Option<u64>,
    pub token_file: Option<Seq<char>>,
}

/// What a command line comes to, as text and numbers.
pub enum ParsedLine<T> {
    Run(T),
    Help,
    Wrong(Seq<char>),
}

pub open spec fn text_of(s: Option<String>) -> Option<Seq<char>> {
    match s {
        Some(s) => Some(s@),
        None => None,
    }
}

impl View for ServerArgs {
    type V = ServerLine;

    open spec fn view(&self) -> ServerLine {
        ServerLine { bind: self.bind@, port: self.port, seed: self.seed }
    }
}

impl View for Args {
    type V = ClientLine;

    open spec fn view(&self) -> ClientLine {
        ClientLine {
            server: text_of(self.server),
            name: text_of(self.name),
            token: self.token,
            token_file: text_of(self.token_file),
        }
    }
}

impl<T: View> View for Parsed<T> {
    type V = ParsedLine<T::V>;

    open spec fn view(&self) -> ParsedLine<T::V> {
        match self {
            Parsed::Run(args) => ParsedLine::Run(args@),
            Parsed::Help => ParsedLine::Help,
            Parsed::Wrong(why) => ParsedLine::Wrong(why@),
        }
    }
}

/// The words of a command line.
pub open spec fn words(args: Seq<String>) -> Seq<Seq<char>> {
    args.map_values(|s: String| s@)
}

pub open spec fn needs_value(arg: Seq<char>) -> Seq<char> {
    arg + " needs a value"@
}

pub open spec fn unrecognized(arg: Seq<char>) -> Seq<char> {
    "unrecognized argument: "@ + arg
}

/// What is left of a server's command line from word `i` on, given what the
/// words before it said.
pub open spec fn server_line(args: Seq<Seq<char>>, i: int, line: ServerLine) -> ParsedLine<ServerLine>
    decreases args.len() - i,
{
    if i < 0 || i >= args.len() {
        ParsedLine::Run(line)
    } else if args[i] == "--bind"@ || args[i] == "--port"@ || args[i] == "--seed"@ {
        if i + 1 >= args.len() {
            ParsedLine::Wrong(needs_value(args[i]))
        } else if args[i] == "--bind"@ {
            server_line(args, i + 2, ServerLine { bind: args[i + 1], ..line })
        } else if args[i] == "--port"@ {
            match number_in(args[i + 1], 0xffff) {
                Some(port) => server_line(args, i + 2, ServerLine { port: port as u16, ..line }),
                None => ParsedLine::Wrong("--port must be a number"@),
            }
        } else {
            match number_in(args[i + 1], u64::MAX) {
                Some(seed) => server_line(args, i + 2, ServerLine { seed, ..line }),
                None => ParsedLine::Wrong("--seed must be a number"@),
            }
        }
    } else if args[i] == "-h"@ || args[i] == "--help"@ {
        ParsedLine::Help
    } else {
        ParsedLine::Wrong(unrecognized(args[i]))
    }
}

/// What is left of a client's command line from word `i` on.
pub open spec fn client_line(args: Seq<Seq<char>>, i: int, line: ClientLine) -> ParsedLine<ClientLine>
    decreases args.len() - i,
{
    if i < 0 || i >= args.len() {
        ParsedLine::Run(line)
    } else if args[i] == "--server"@ || args[i] == "--name"@ || args[i] == "--token"@ || args[i]
        == "--token-file"@ {
        if i + 1 >= args.len() {
            ParsedLine::Wrong(needs_value(args[i]))
        } else if args[i] == "--server"@ {
            client_line(args, i + 2, ClientLine { server: Some(args[i + 1]), ..line })
        } else if args[i] == "--name"@ {
            client_line(args, i + 2, ClientLine { name: Some(args[i + 1]), ..line })
        } else if args[i] == "--token"@ {
            match number_in(args[i + 1], u64::MAX) {
                Some(token) => client_line(
                    args,
                    i + 2,
                    ClientLine { token: Some(token), ..line },
                ),
                None => ParsedLine::Wrong("--token must be a number"@),
            }
        } else {
            client_line(args, i + 2, ClientLine { token_file: Some(args[i + 1]), ..line })
        }
    } else if args[i] == "-h"@ || args[i] == "--help"@ {
        ParsedLine::Help
    } else {
        ParsedLine::Wrong(unrecognized(args[i]))
    }
}

fn missing_value(arg: &str) -> (r: String)
    ensures
        arg@.is_prefix_of(r@),
        r@ == needs_value(arg@),
{
    let mut out = arg.to_owned();
    out.append(" needs a value");
    out
}

fn unknown_word(arg: &str) -> (r: String)
    ensures
        arg@.is_suffix_of(r@),
        r@ == unrecognized(arg@),
{
    let mut out = "unrecognized argument: ".to_owned();
    out.append(arg);
    out
}

/// Reads a server's command line, without the program's own name. `port` and
/// `seed` stand where it says nothing of them.
pub fn parse_server_args(args: &Vec<String>, port: u16, seed: u64) -> (r: Parsed<ServerArgs>)
    ensures
        r@ == server_line(words(args@), 0, ServerLine { bind: "0.0.0.0"@, port, seed }),
{
    let mut out = ServerArgs { bind: "0.0.0.0".to_owned(), port, seed };
    let ghost all = words(args@);
    let ghost whole = server_line(all, 0, out@);
    let mut i: usize = 0;
    while i < args.len()
        invariant
            i <= args@.len(),
            all == words(args@),
            whole == server_line(all, 0, ServerLine { bind: "0.0.0.0"@, port, seed }),
            whole == server_line(all, i as int, out@),
        decreases args.len() - i,
    {
        let arg = args[i].as_str();
        assert(all[i as int] == arg@);
        let bind = same_text(arg, "--bind");
        let port = same_text(arg, "--port");
        let seed = same_text(arg, "--seed");
        if bind || port || seed {
            if args.len() - i < 2 {
                return Parsed::Wrong(missing_value(arg));
            }
            let value = args[i + 1].as_str();
            assert(all[i + 1] == value@);
            if bind {
                out.bind = value.to_owned();
            } else if port {
                match parse_u16(value) {
                    Some(n) => {
                        out.port = n;
                    },
                    None => {
                        return Parsed::Wrong("--port must be a number".to_owned());
                    },
                }
            } else {
                match parse_u64(value) {
                    Some(n) => {
                        out.seed = n;
                    },
                    None => {
                        return Parsed::Wrong("--seed must be a number".to_owned());
                    },
                }
            }
            i = i + 2;
        } else if same_text(arg, "-h") || same_text(arg, "--help") {
            return Parsed::Help;
        } else {
            return Parsed::Wrong(unknown_word(arg));
        }
    }
    Parsed::Run(out)
}

/// Reads a client's command line, without the program's own name.
pub fn parse_args(args: &Vec<String>) -> (r: Parsed<Args>)
    ensures
        r@ == client_line(
            words(args@),
            0,
            ClientLine { server: None, name: None, token: None, token_file: None },
        ),
{
    let mut out = Args { server: None, name: None, token: None, token_file: None };
    let ghost all = words(args@);
    let ghost whole = client_line(all, 0, out@);
    let mut i: usize = 0;
    while i < args.len()
        invariant
            i <= args@.len(),
            all == words(args@),
            whole == client_line(
                all,
                0,
                ClientLine { server: None, name: None, token: None, token_file: None },
            ),
            whole == client_line(all, i as int, out@),
        decreases args.len() - i,
    {
        let arg = args[i].as_str();
        assert(all[i as int] == arg@);
        let server = same_text(arg, "--server");
        let name = same_text(arg, "--name");
        let token = same_text(arg, "--token");
        let token_file = same_text(arg, "--token-file");
        if server || name || token || token_file {
            if args.len() - i < 2 {
                return Parsed::Wrong(missing_value(arg));
            }
            let value = args[i + 1].as_str();
            assert(all[i + 1] == value@);
            if server {
                out.server = Some(value.to_owned());
            } else if name {
                out.name = Some(value.to_owned());
            } else if token {
                match parse_u64(value) {
                    Some(n) => {
                        out.token = Some(n);
                    },
                    None => {
                        return Parsed::Wrong("--token must be a number".to_owned());
                    },
                }
            } else {
                out.token_file = Some(value.to_owned());
            }
            i = i + 2;
        } else if same_text(arg, "-h") || same_text(arg, "--help") {
            return Parsed::Help;
        } else {
            return Parsed::Wrong(unknown_word(arg));
        }
    }
    Parsed::Run(out)
}

/// A state of the match, in a word.
pub open spec fn state_word(state: GameStatus) -> Seq<char> {
    match state {
        GameStatus::Waiting => "Waiting"@,
        GameStatus::Running => "Running"@,
        GameStatus::Finished => "Finished"@,
    }
}

/// How a player's link is doing.
pub open spec fn link_part(connected: bool, rtt_ms: Option<u32>) -> Seq<char> {
    if connected {
        match rtt_ms {
            Some(ms) => " "@ + digits(ms as nat) + "ms"@,
            None => Seq::empty(),
        }
    } else {
        " (offline)"@
    }
}

/// What the report says of one player.
pub open spec fn player_part(p: PlayerStatus) -> Seq<char> {
    " | "@ + p.name@ + "#"@ + digits(p.id as nat) + " ore "@ + digits(p.ore_mined as nat)
        + " cap "@ + digits(p.captures as nat) + link_part(p.connected, p.rtt_ms)
}

pub open spec fn player_parts(players: Seq<PlayerStatus>, n: nat) -> Seq<char> {
    gathered(n, |i: int| player_part(players[i]))
}

fn link_text(connected: bool, rtt_ms: Option<u32>) -> (r: String)
    ensures
        !connected ==> r@ == " (offline)"@,
        connected && rtt_ms is None ==> r@.len() == 0,
        connected && rtt_ms is Some ==> r@ == " "@ + digits(rtt_ms->0 as nat) + "ms"@,
        r@ == link_part(connected, rtt_ms),
{
    if !connected {
        return " (offline)".to_owned();
    }
    match rtt_ms {
        Some(ms) => {
            let mut out = " ".to_owned();
            push_decimal(&mut out, ms as u64);
            out.append("ms");
            out
        },
        None => String::new(),
    }
}

fn player_text(p: &PlayerStatus) -> (r: String)
    ensures
        r@ == player_part(*p),
{
    let mut out = " | ".to_owned();
    out.append(p.name.as_str());
    out.append("#");
    push_decimal(&mut out, p.id as u64);
    out.append(" ore ");
    push_decimal(&mut out, p.ore_mined as u64);
    out.append(" cap ");
    push_decimal(&mut out, p.captures as u64);
    let link = link_text(p.connected, p.rtt_ms);
    out.append(link.as_str());
    out
}

/// The periodic line: where the match is up to, and who is in it.
pub fn report(status: &Status) -> (r: String)
    ensures
        r@ == "tick "@ + digits(status.tick as nat) + " | "@ + state_word(status.state)
            + player_parts(status.players@, status.players@.len()),
{
    let mut line = "tick ".to_owned();
    push_decimal(&mut line, status.tick as u64);
    line.append(" | ");
    match status.state {
        GameStatus::Waiting => {
            line.append("Waiting");
        },
        GameStatus::Running => {
            line.append("Running");
        },
        GameStatus::Finished => {
            line.append("Finished");
        },
    }
    let ghost head = line@;
    let mut i: usize = 0;
    while i < status.players.len()
        invariant
            i <= status.players@.len(),
            line@ =~= head + player_parts(status.players@, i as nat),
        decreases status.players.len() - i,
    {
        let part = player_text(&status.players[i]);
        line.append(part.as_str());
        i = i + 1;
    }
    line
}

/// What a run of bytes hashes to: each byte is folded in, then spread by a
/// multiplication.
pub open spec fn bytes_hash(bytes: Seq<u8>) -> u64
    decreases bytes.len(),
{
    if bytes.len() == 0 {
        0xcbf2_9ce4_8422_2325
    } else {
        (bytes_hash(bytes.drop_last()) ^ (bytes.last() as u64)).wrapping_mul(0x1000_0000_01b3)
    }
}

/// The number an identity is made from, so that one name always returns to the
/// same player slot without needing a file on disk.
pub fn name_hash(name: &str) -> (r: u64)
    ensures
        r == bytes_hash(encode_utf8(name@)),
{
    let bytes = name.as_bytes();
    let mut hash: u64 = 0xcbf2_9ce4_8422_2325;
    let mut i: usize = 0;
    while i < bytes.len()
        invariant
            i <= bytes@.len(),
            hash == bytes_hash(bytes@.take(i as int)),
        decreases bytes.len() - i,
    {
        assert(bytes@.take(i + 1).drop_last() =~= bytes@.take(i as int));
        hash = (hash ^ (bytes[i] as u64)).wrapping_mul(0x1000_0000_01b3);
        i = i + 1;
    }
    assert(bytes@.take(bytes@.len() as int) =~= bytes@);
    hash
}

/// What a server's command line says is what the server is started with, in
/// whatever text and numbers it says it.
pub proof fn lemma_a_server_line_reads_back(line: ServerLine, bind: Seq<char>, port: u16, seed: u64)
    ensures
        server_line(
            seq![
                "--bind"@,
                bind,
                "--port"@,
                digits(port as nat),
                "--seed"@,
                digits(seed as nat),
            ],
            0,
            line,
        ) == ParsedLine::Run(ServerLine { bind, port, seed }),
        server_line(Seq::empty(), 0, line) == ParsedLine::Run(line),
{
    let args = seq![
        "--bind"@,
        bind,
        "--port"@,
        digits(port as nat),
        "--seed"@,
        digits(seed as nat),
    ];
    reveal_strlit("--bind");
    reveal_strlit("--port");
    reveal_strlit("--seed");
    assert("--bind"@[2] != "--port"@[2]);
    assert("--bind"@[2] != "--seed"@[2]);
    assert("--port"@[2] != "--seed"@[2]);
    lemma_a_number_in_bounds_reads_back(port as nat, 0xffff);
    lemma_a_number_in_bounds_reads_back(seed as nat, u64::MAX);
    let bound = ServerLine { bind, ..line };
    let placed = ServerLine { port, ..bound };
    let sown = ServerLine { seed, ..placed };
    assert(server_line(args, 6, sown) == ParsedLine::Run(sown));
    assert(server_line(args, 4, placed) == server_line(args, 6, sown));
    assert(server_line(args, 2, bound) == server_line(args, 4, placed));
    assert(server_line(args, 0, line) == server_line(args, 2, bound));
}

/// What a client's command line says is what the client is started with.
pub proof fn lemma_a_client_line_reads_back(
    line: ClientLine,
    server: Seq<char>,
    name: Seq<char>,
    token: u64,
    token_file: Seq<char>,
)
    ensures
        client_line(
            seq![
                "--server"@,
                server,
                "--name"@,
                name,
                "--token"@,
                digits(token as nat),
                "--token-file"@,
                token_file,
            ],
            0,
            line,
        ) == ParsedLine::Run(
            ClientLine {
                server: Some(server),
                name: Some(name),
                token: Some(token),
                token_file: Some(token_file),
            },
        ),
        client_line(Seq::empty(), 0, line) == ParsedLine::Run(line),
{
    let args = seq![
        "--server"@,
        server,
        "--name"@,
        name,
        "--token"@,
        digits(token as nat),
        "--token-file"@,
        token_file,
    ];
    reveal_strlit("--server");
    reveal_strlit("--name");
    reveal_strlit("--token");
    reveal_strlit("--token-file");
    assert("--server"@.len() == 8);
    assert("--name"@.len() == 6);
    assert("--token"@.len() == 7);
    assert("--token-file"@.len() == 12);
    lemma_a_number_in_bounds_reads_back(token as nat, u64::MAX);
    let a = ClientLine { server: Some(server), ..line };
    let b = ClientLine { name: Some(name), ..a };
    let c = ClientLine { token: Some(token), ..b };
    let d = ClientLine { token_file: Some(token_file), ..c };
    assert(client_line(args, 8, d) == ParsedLine::Run(d));
    assert(client_line(args, 6, c) == client_line(args, 8, d));
    assert(client_line(args, 4, b) == client_line(args, 6, c));
    assert(client_line(args, 2, a) == client_line(args, 4, b));
    assert(client_line(args, 0, line) == client_line(args, 2, a));
}

/// A number no greater than what is asked for reads back as it was written.
pub proof fn lemma_a_number_in_bounds_reads_back(n: nat, max: u64)
    requires
        n <= max,
    ensures
        number_in(digits(n), max) == Some(n as u64),
{
    crate::text::lemma_a_number_reads_back(n);
    assert(crate::text::is_digit(digits(n)[0]));
}

/// A word that asks for help gets it, and one that means nothing is named back,
/// wherever on the line it stands first.
pub proof fn lemma_an_unknown_word_is_named(args: Seq<Seq<char>>, i: int, line: ServerLine)
    requires
        0 <= i < args.len(),
        args[i] != "--bind"@,
        args[i] != "--port"@,
        args[i] != "--seed"@,
    ensures
        args[i] == "-h"@ || args[i] == "--help"@ ==> server_line(args, i, line) is Help,
        args[i] != "-h"@ && args[i] != "--help"@ ==> server_line(args, i, line) is Wrong
            && args[i].is_suffix_of(server_line(args, i, line)->Wrong_0),
{
}

/// What is said of a player starts with who they are and what they mined, and
/// ends with how their link is.
pub proof fn lemma_a_player_is_reported(p: PlayerStatus)
    ensures
        (" | "@ + p.name@ + "#"@ + digits(p.id as nat) + " ore "@ + digits(
            p.ore_mined as nat,
        )).is_prefix_of(player_part(p)),
        (digits(p.captures as nat) + link_part(p.connected, p.rtt_ms)).is_suffix_of(player_part(p)),
{
    let part = player_part(p);
    let head = " | "@ + p.name@ + "#"@ + digits(p.id as nat) + " ore "@ + digits(
        p.ore_mined as nat,
    );
    let tail = digits(p.captures as nat) + link_part(p.connected, p.rtt_ms);
    assert(part =~= head + " cap "@ + tail);
    assert(part.take(head.len() as int) =~= head);
    assert(part.skip(part.len() - tail.len()) =~= tail);
}

/// Each byte of a name moves its number on, and two names that differ in their
/// last byte alone never share one.
pub proof fn lemma_names_are_told_apart(bytes: Seq<u8>, a: u8, b: u8)
    ensures
        bytes_hash(Seq::empty()) == 0xcbf2_9ce4_8422_2325,
        bytes_hash(bytes.push(a)) as int == ((bytes_hash(bytes) ^ (a as u64)) * 0x1000_0000_01b3)
            % 0x1_0000_0000_0000_0000,
        bytes_hash(bytes.push(a)) == bytes_hash(bytes.push(b)) <==> a == b,
{
    let h = bytes_hash(bytes);
    assert(bytes.push(a).drop_last() =~= bytes);
    assert(bytes.push(b).drop_last() =~= bytes);
    let x: u64 = h ^ (a as u64);
    let y: u64 = h ^ (b as u64);
    assert(x == y ==> a == b) by (bit_vector)
        requires
            x == h ^ (a as u64),
            y == h ^ (b as u64),
    ;
    lemma_spread_back(x as int);
    lemma_spread_back(y as int);
}

/// The spreading multiplication loses nothing: its factor is odd, so another
/// factor undoes it.
proof fn lemma_spread_back(x: int)
    requires
        0 <= x < 0x1_0000_0000_0000_0000,
    ensures
        ((x * 0x1000_0000_01b3) % 0x1_0000_0000_0000_0000 * 0xb46dd957aff6957b) % 0x1_0000_0000_0000_0000 == x,
{
    let m: int = 0x1_0000_0000_0000_0000;
    let k: int = 0xb46dd957c32;
    vstd::arithmetic::div_mod::lemma_mul_mod_noop_left(x * 0x1000_0000_01b3, 0xb46dd957aff6957b, m);
    assert(x * 0x1000_0000_01b3 * 0xb46dd957aff6957b == m * (k * x) + x) by (nonlinear_arith)
        requires
            m == 0x1_0000_0000_0000_0000,
            k == 0xb46dd957c32,
    ;
    vstd::arithmetic::div_mod::lemma_mod_multiples_vanish(k * x, x, m);
    vstd::arithmetic::div_mod::lemma_small_mod(x as nat, m as nat);
}

} // verus!
