//! The connect screen: where a match is joined.
//!
//! It asks who to join and under what name, and shows whatever the server
//! answers with the fields still there to correct.

use vstd::prelude::*;
use vstd::string::*;

use crate::console::Args;
use crate::link::Link;
use crate::measure::Stamp;
use crate::protocol::{DenyReason, DEFAULT_PORT};
use crate::text::{control, digits, is_control, push_decimal, trim, trimmed, without_last};
use crate::wording::Wording;

verus! {

/// How long a handshake goes unanswered before the screen says so: four
/// seconds.
pub const QUIET: Stamp = 0x4010_0000_0000_0000;

/// Longest name the screen accepts. A name nobody can read on the scoreboard is
/// not a name.
pub const NAME_LIMIT: usize = 20;

/// Longest address the screen accepts; comfortably past any host name.
pub const ADDRESS_LIMIT: usize = 60;

/// One of the two things a player types.
#[derive(Clone, Copy, Debug, PartialEq, Eq, Structural)]
pub enum FieldId {
    Server,
    Name,
}

impl FieldId {
    pub fn label(self) -> (r: &'static str)
        ensures
            r@ == match self {
                FieldId::Server => "Server"@,
                FieldId::Name => "Name"@,
            },
    {
        match self {
            FieldId::Server => "Server",
            FieldId::Name => "Name",
        }
    }

    pub open spec fn other_spec(self) -> FieldId {
        match self {
            FieldId::Server => FieldId::Name,
            FieldId::Name => FieldId::Server,
        }
    }

    /// The field `Tab` moves on to.
    pub fn other(self) -> (r: FieldId)
        ensures
            self == FieldId::Server <==> r == FieldId::Name,
            self == FieldId::Name <==> r == FieldId::Server,
            r == self.other_spec(),
    {
        match self {
            FieldId::Server => FieldId::Name,
            FieldId::Name => FieldId::Server,
        }
    }

    pub open spec fn limit_spec(self) -> usize {
        match self {
            FieldId::Server => ADDRESS_LIMIT,
            FieldId::Name => NAME_LIMIT,
        }
    }

    /// How many characters the field holds.
    pub fn limit(self) -> (r: usize)
        ensures
            self == FieldId::Server ==> r == ADDRESS_LIMIT,
            self == FieldId::Name ==> r == NAME_LIMIT,
            r == self.limit_spec(),
    {
        match self {
            FieldId::Server => ADDRESS_LIMIT,
            FieldId::Name => NAME_LIMIT,
        }
    }
}

/// A field once the first `n` characters of `text` have been typed into it.
/// What is not text is dropped, and the field is held to its limit.
pub open spec fn typed(field: Seq<char>, text: Seq<char>, limit: nat, n: nat) -> Seq<char>
    decreases n,
{
    if n == 0 {
        field
    } else {
        let before = typed(field, text, limit, (n - 1) as nat);
        if is_control(text[n - 1]) || before.len() >= limit {
            before
        } else {
            before.push(text[n - 1])
        }
    }
}

/// Adds typed characters to a field.
///
/// Enter and Tab arrive with text of their own, so dropping control characters
/// is what stops a submitted form from also gaining a character nobody typed.
/// The limit counts characters, or a name in a non-Latin script would be cut to
/// a third of the length everybody else gets.
pub fn type_into(field: &mut String, text: &str, limit: usize)
    ensures
        old(field)@.is_prefix_of(final(field)@),
        old(field)@.len() <= limit ==> final(field)@.len() <= limit,
        old(field)@.len() + text@.len() <= limit && (forall|i: int|
            0 <= i < text@.len() ==> !is_control(#[trigger] text@[i])) ==> final(field)@ =~= old(field)@
            + text@,
        forall|i: int|
            old(field)@.len() <= i < final(field)@.len() ==> !is_control(#[trigger] final(field)@[i])
                && text@.contains(final(field)@[i]),
        final(field)@ == typed(old(field)@, text@, limit as nat, text@.len()),
{
    let n = text.unicode_len();
    let mut i: usize = 0;
    while i < n
        invariant
            i <= n,
            n == text@.len(),
            field@ == typed(old(field)@, text@, limit as nat, i as nat),
        decreases n - i,
    {
        let ch = text.get_char(i);
        if !control(ch) && field.as_str().unicode_len() < limit {
            field.push(ch);
        }
        i = i + 1;
    }
    proof {
        lemma_typing_adds_at_the_end(old(field)@, text@, limit as nat, text@.len());
        assert(text@.take(text@.len() as int) =~= text@);
    }
}

/// Where a server can be reached.
#[derive(Clone, Copy, Debug, PartialEq, Eq, Structural)]
pub enum Address {
    V4 { ip: u32, port: u16 },
    V6 { ip: u128, port: u16 },
}

/// Which of the addresses a name resolved to is talked to: the first IPv4, or
/// the first of all.
pub open spec fn preferred(resolved: Seq<Address>, r: Option<Address>) -> bool {
    match r {
        Some(a) => exists|i: int|
            {
                &&& 0 <= i < resolved.len()
                &&& #[trigger] resolved[i] == a
                &&& if a is V4 {
                    forall|k: int| 0 <= k < i ==> (#[trigger] resolved[k]) is V6
                } else {
                    i == 0 && forall|k: int|
                        0 <= k < resolved.len() ==> (#[trigger] resolved[k]) is V6
                }
            },
        None => resolved.len() == 0,
    }
}

/// Picks which resolved address to talk to, preferring IPv4.
///
/// `localhost` may resolve to an IPv6 address first, and a server binds IPv4 by
/// default. Nothing reports a packet sent where nobody listens, so the client
/// would simply wait forever. An explicit IPv6 address still works; this only
/// decides ties.
pub fn prefer_ipv4(resolved: &Vec<Address>) -> (r: Option<Address>)
    ensures
        preferred(resolved@, r),
{
    let mut i: usize = 0;
    while i < resolved.len()
        invariant
            i <= resolved@.len(),
            forall|k: int| 0 <= k < i ==> (#[trigger] resolved@[k]) is V6,
        decreases resolved.len() - i,
    {
        if let Address::V4 { ip: _, port: _ } = resolved[i] {
            assert(resolved@[i as int] is V4);
            return Some(resolved[i]);
        }
        i = i + 1;
    }
    if resolved.len() == 0 {
        None
    } else {
        assert(resolved@[0] == resolved@[0]);
        Some(resolved[0])
    }
}

/// Where the first of a character is.
pub open spec fn first_of(s: Seq<char>, c: char) -> Option<int>
    decreases s.len(),
{
    if s.len() == 0 {
        None
    } else if s[0] == c {
        Some(0)
    } else {
        match first_of(s.skip(1), c) {
            Some(i) => Some(i + 1),
            None => None,
        }
    }
}

/// How many of a character there are.
pub open spec fn count_of(s: Seq<char>, c: char) -> nat
    decreases s.len(),
{
    if s.len() == 0 {
        0
    } else {
        count_of(s.drop_last(), c) + if s.last() == c {
            1nat
        } else {
            0nat
        }
    }
}

fn find_char(s: &str, c: char) -> (r: Option<usize>)
    ensures
        match r {
            Some(i) => i < s@.len() && s@[i as int] == c && forall|k: int|
                0 <= k < i ==> #[trigger] s@[k] != c,
            None => forall|k: int| 0 <= k < s@.len() ==> #[trigger] s@[k] != c,
        },
        match r {
            Some(i) => i < s@.len() && first_of(s@, c) == Some(i as int),
            None => first_of(s@, c) is None,
        },
{
    let n = s.unicode_len();
    let mut i: usize = 0;
    assert(s@.skip(0) =~= s@);
    while i < n
        invariant
            i <= n,
            n == s@.len(),
            first_of(s@, c) == match first_of(s@.skip(i as int), c) {
                Some(k) => Some(k + i),
                None => None,
            },
            forall|k: int| 0 <= k < i ==> #[trigger] s@[k] != c,
        decreases n - i,
    {
        assert(s@.skip(i as int)[0] == s@[i as int]);
        if s.get_char(i) == c {
            return Some(i);
        }
        assert(s@.skip(i as int).skip(1) =~= s@.skip(i as int + 1));
        i = i + 1;
    }
    None
}

fn count_char(s: &str, c: char) -> (r: usize)
    ensures
        r == 0 <==> forall|k: int| 0 <= k < s@.len() ==> #[trigger] s@[k] != c,
        r <= s@.len(),
        r == count_of(s@, c),
{
    let n = s.unicode_len();
    let mut i: usize = 0;
    let mut count: usize = 0;
    while i < n
        invariant
            i <= n,
            n == s@.len(),
            count <= i,
            count == count_of(s@.take(i as int), c),
        decreases n - i,
    {
        assert(s@.take(i + 1).drop_last() =~= s@.take(i as int));
        if s.get_char(i) == c {
            count = count + 1;
        }
        i = i + 1;
    }
    assert(s@.take(n as int) =~= s@);
    proof {
        if count == 0 {
            assert forall|k: int| 0 <= k < s@.len() implies #[trigger] s@[k] != c by {
                if s@[k] == c {
                    lemma_count_of_member(s@, c, k);
                }
            }
        } else {
            lemma_something_counted_is_there(s@, c);
        }
    }
    count
}

/// The colon and the usual port.
pub open spec fn port_words() -> Seq<char> {
    ":"@ + digits(DEFAULT_PORT as nat)
}

/// An address with a port on it. A colon does not settle on its own whether it
/// had one: an IPv6 address is made of them, and only carries a port when it is
/// bracketed and one follows the bracket.
pub open spec fn with_port(text: Seq<char>) -> Seq<char> {
    match first_of(text, ']') {
        Some(i) => if i + 1 < text.len() && text[i + 1] == ':' {
            text
        } else {
            text + port_words()
        },
        None => if count_of(text, ':') > 1 {
            "["@ + text + "]"@ + port_words()
        } else if count_of(text, ':') == 0 {
            text + port_words()
        } else {
            text
        },
    }
}

/// What typed text means as an address: the loopback for an empty box, and the
/// usual port for anything without one.
pub open spec fn meant(typed: Seq<char>) -> Seq<char> {
    if trimmed(typed).len() == 0 {
        with_port("127.0.0.1"@)
    } else {
        with_port(trimmed(typed))
    }
}

/// Turns what was typed into the text of an address with a port.
pub fn address_text(typed: &str) -> (r: String)
    ensures
        trimmed(typed@).len() > 0 && !trimmed(typed@).contains(':') && !trimmed(typed@).contains(']')
            ==> r@ == trimmed(typed@) + ":"@ + digits(DEFAULT_PORT as nat),
        trimmed(typed@).len() > 0 ==> trimmed(typed@).is_prefix_of(r@) || (("["@ + trimmed(
            typed@,
        )).is_prefix_of(r@) && !trimmed(typed@).contains(']')),
        r@ == meant(typed@),
{
    let mut text = trim(typed);
    if text.as_str().unicode_len() == 0 {
        text = "127.0.0.1".to_owned();
    }
    let ghost asked = text@;
    proof {
        lemma_only_what_is_there_is_found(asked, ']');
        if count_of(asked, ':') > 0 {
            lemma_something_counted_is_there(asked, ':');
        }
    }
    let mut port = ":".to_owned();
    push_decimal(&mut port, DEFAULT_PORT as u64);
    match find_char(text.as_str(), ']') {
        Some(i) => {
            let n = text.as_str().unicode_len();
            if n - i > 1 && text.as_str().get_char(i + 1) == ':' {
                return text;
            }
            text.append(port.as_str());
            assert(asked[i as int] == ']');
            assert(text@.take(asked.len() as int) =~= asked);
            text
        },
        None => {
            let colons = count_char(text.as_str(), ':');
            if colons > 1 {
                let mut out = "[".to_owned();
                out.append(text.as_str());
                out.append("]");
                out.append(port.as_str());
                assert(out@.take(("["@ + asked).len() as int) =~= "["@ + asked);
                out
            } else if colons == 0 {
                text.append(port.as_str());
                assert(text@ =~= asked + ":"@ + digits(DEFAULT_PORT as nat));
                assert(text@.take(asked.len() as int) =~= asked);
                text
            } else {
                text
            }
        },
    }
}

/// Settles on one of the addresses the text resolved to, or says why not.
/// `resolved` is nothing where it could not be resolved at all.
pub fn settle_address(typed: &str, resolved: Option<Vec<Address>>) -> (r: Result<Address, String>)
    ensures
        match resolved {
            None => r is Err && r->Err_0@ == "Cannot find "@ + trimmed(typed@),
            Some(list) => match r {
                Ok(a) => preferred(list@, Some(a)),
                Err(why) => list@.len() == 0 && why@ == "No address for "@ + trimmed(typed@),
            },
        },
{
    match resolved {
        None => {
            let mut why = "Cannot find ".to_owned();
            let shown = trim(typed);
            why.append(shown.as_str());
            Err(why)
        },
        Some(list) => match prefer_ipv4(&list) {
            Some(a) => Ok(a),
            None => {
                let mut why = "No address for ".to_owned();
                let shown = trim(typed);
                why.append(shown.as_str());
                Err(why)
            },
        },
    }
}

/// The line of a text that starts at its beginning.
pub open spec fn first_line(s: Seq<char>) -> Seq<char> {
    match first_of(s, '\n') {
        Some(i) => s.take(i),
        None => s,
    }
}

/// What follows the first line.
pub open spec fn after_line(s: Seq<char>) -> Seq<char> {
    match first_of(s, '\n') {
        Some(i) => s.skip(i + 1),
        None => Seq::empty(),
    }
}

/// The server and the name a file holds.
pub open spec fn recalled(text: Seq<char>) -> Option<(Seq<char>, Seq<char>)> {
    let server = trimmed(first_line(text));
    if server.len() == 0 {
        None
    } else {
        Some((server, trimmed(first_line(after_line(text)))))
    }
}

fn split_line(s: &str) -> (r: (String, String))
    ensures
        r.0@ == first_line(s@),
        r.1@ == after_line(s@),
{
    let n = s.unicode_len();
    match find_char(s, '\n') {
        Some(i) => {
            assert(s@.subrange(0, i as int) =~= s@.take(i as int));
            assert(s@.subrange(i + 1, n as int) =~= s@.skip(i + 1));
            (s.substring_char(0, i).to_owned(), s.substring_char(i + 1, n).to_owned())
        },
        None => (s.to_owned(), String::new()),
    }
}

/// Reads what was remembered from last time: address on the first line, name on
/// the second.
pub fn recall(text: &str) -> (r: Option<(String, String)>)
    ensures
        match r {
            Some(found) => recalled(text@) == Some((found.0@, found.1@)),
            None => recalled(text@) is None,
        },
{
    let (first, rest) = split_line(text);
    let server = trim(first.as_str());
    if server.as_str().unicode_len() == 0 {
        return None;
    }
    let (second, _) = split_line(rest.as_str());
    let name = trim(second.as_str());
    Some((server, name))
}

pub open spec fn remembered_words(server: Seq<char>, name: Seq<char>) -> Seq<char> {
    server + "\n"@ + name + "\n"@
}

/// What to keep for the next launch.
pub fn remember(server: &str, name: &str) -> (r: String)
    ensures
        r@ == remembered_words(trimmed(server@), trimmed(name@)),
{
    let mut out = trim(server);
    out.append("\n");
    let kept = trim(name);
    out.append(kept.as_str());
    out.append("\n");
    out
}

/// Who a player connects as.
#[derive(Clone, Debug)]
pub enum Identity {
    Token(u64),
    /// Whatever token a file holds.
    File(String),
    /// A token made from a name.
    Name(String),
    /// The token file that is written for a player who never gave a name.
    Unnamed,
}

/// A key that reached the form.
#[derive(Clone, Debug)]
pub enum Key {
    Enter,
    Escape,
    /// `Tab`, and the arrows that do the same.
    Walk,
    Backspace,
    Typed(String),
}

/// What a key asked for, beyond editing.
#[derive(Clone, Copy, Debug, PartialEq, Eq, Structural)]
pub enum Asked {
    Nothing,
    Submit,
    Cancel,
}

/// What the screen does next.
#[derive(Clone, Copy, Debug, PartialEq, Eq, Structural)]
pub enum Turn {
    Stay,
    /// Give the handshake up.
    Drop,
    /// Begin one.
    Start,
    /// The match is on: keep what worked, and leave this screen.
    Play,
}

pub struct ConnectForm {
    pub server: String,
    pub name: String,
    pub focus: FieldId,
    /// The line under the fields: what is happening, or what went wrong.
    pub status: String,
    /// Whether that line is a complaint, which is painted differently.
    pub trouble: bool,
    /// The address a handshake is under way with.
    pub attempt: Option<String>,
    /// An identity given explicitly on the command line, which outranks the
    /// name in the box.
    pub token: Option<u64>,
    pub token_file: Option<String>,
    /// Set when the command line already said where to go: the screen submits
    /// itself on the first frame.
    pub auto: bool,
}

pub open spec fn local_server() -> Seq<char> {
    "127.0.0.1:"@ + digits(DEFAULT_PORT as nat)
}

/// The first characters of a text, as many as a name may have.
pub open spec fn cut_to_name(s: Seq<char>) -> Seq<char> {
    if s.len() <= NAME_LIMIT {
        s
    } else {
        s.take(NAME_LIMIT as int)
    }
}

fn cut(s: &str) -> (r: String)
    ensures
        r@.len() <= NAME_LIMIT,
        r@.is_prefix_of(s@),
        s@.len() <= NAME_LIMIT ==> r@ == s@,
        s@.len() > NAME_LIMIT ==> r@.len() == NAME_LIMIT,
        r@ == cut_to_name(s@),
{
    if s.unicode_len() <= NAME_LIMIT {
        s.to_owned()
    } else {
        assert(s@.subrange(0, NAME_LIMIT as int) =~= s@.take(NAME_LIMIT as int));
        s.substring_char(0, NAME_LIMIT).to_owned()
    }
}

pub open spec fn refusal_words(reason: DenyReason, wording: &Wording) -> Seq<char> {
    match reason {
        DenyReason::NameTaken => "Somebody is already playing under that name. A name is an identity here, so two clients cannot share one. Try another."@,
        _ => "Refused: "@ + wording.deny_spec(reason),
    }
}

/// What to tell a player whose connection was refused.
pub fn refusal(reason: DenyReason, wording: &Wording) -> (r: String)
    ensures
        reason != DenyReason::NameTaken ==> wording.deny_spec(reason).is_suffix_of(r@),
        r@ == refusal_words(reason, wording),
{
    match reason {
        DenyReason::NameTaken => "Somebody is already playing under that name. A name is an identity here, so two clients cannot share one. Try another.".to_owned(),
        _ => {
            let mut out = "Refused: ".to_owned();
            out.append(wording.deny(reason));
            out
        },
    }
}

pub open spec fn no_reply_words(addr: Seq<char>, seconds: u32) -> Seq<char> {
    "No reply from "@ + addr + " after "@ + digits(seconds as nat)
        + "s. Is the server running, and is it listening on that address? A server on 0.0.0.0 cannot hear an IPv6 client. Esc to stop and edit."@
}

impl ConnectForm {
    /// Fills the form from the command line, then from what was typed last time,
    /// then from the host's own account name -- so the commonest case is
    /// pressing Enter on a screen that already says the right thing.
    pub fn new(args: Args, remembered: Option<(String, String)>, account: Option<String>) -> (r: Self)
        ensures
            r.server@ == match (args@.server, remembered) {
                (Some(s), _) => s,
                (None, Some(kept)) => kept.0@,
                (None, None) => local_server(),
            },
            r.name@ == match (args@.name, remembered) {
                (Some(s), _) => s,
                (None, Some(kept)) => kept.1@,
                (None, None) => match account {
                    Some(name) => cut_to_name(name@),
                    None => Seq::empty(),
                },
            },
            r.focus == FieldId::Name,
            r.status@.len() == 0,
            !r.trouble,
            r.attempt is None,
            r.token == args.token,
            r.token_file == args.token_file,
            r.auto == (args.server is Some || args.name is Some || args.token is Some
                || args.token_file is Some),
    {
        let auto = args.server.is_some() || args.name.is_some() || args.token.is_some()
            || args.token_file.is_some();
        let (kept_server, kept_name): (Option<String>, Option<String>) = match remembered {
            Some((s, n)) => (Some(s), Some(n)),
            None => (None, None),
        };
        let server = match args.server {
            Some(s) => s,
            None => match kept_server {
                Some(s) => s,
                None => {
                    let mut out = "127.0.0.1:".to_owned();
                    push_decimal(&mut out, DEFAULT_PORT as u64);
                    out
                },
            },
        };
        let name = match args.name {
            Some(s) => s,
            None => match kept_name {
                Some(s) => s,
                None => match account {
                    Some(who) => cut(who.as_str()),
                    None => String::new(),
                },
            },
        };
        ConnectForm {
            server,
            name,
            focus: FieldId::Name,
            status: String::new(),
            trouble: false,
            attempt: None,
            token: args.token,
            token_file: args.token_file,
            auto,
        }
    }

    /// The identity this form would connect under: an explicit token wins, then
    /// a token file, then the name -- which is what lets two windows on one
    /// machine be two players.
    pub fn identity(&self) -> (r: Identity)
        ensures
            match (self.token, self.token_file) {
                (Some(token), _) => r == Identity::Token(token),
                (None, Some(path)) => r is File && r->File_0@ == path@,
                (None, None) => if trimmed(self.name@).len() > 0 {
                    r is Name && r->Name_0@ == trimmed(self.name@)
                } else {
                    r is Unnamed
                },
            },
    {
        if let Some(token) = self.token {
            return Identity::Token(token);
        }
        if let Some(path) = &self.token_file {
            return Identity::File(path.clone());
        }
        let name = trim(self.name.as_str());
        if name.as_str().unicode_len() > 0 {
            Identity::Name(name)
        } else {
            Identity::Unnamed
        }
    }

    pub open spec fn field_spec(&self, which: FieldId) -> Seq<char> {
        match which {
            FieldId::Server => self.server@,
            FieldId::Name => self.name@,
        }
    }

    /// What is in a field.
    pub fn field(&self, which: FieldId) -> (r: &str)
        ensures
            which == FieldId::Server ==> r@ == self.server@,
            which == FieldId::Name ==> r@ == self.name@,
            r@ == self.field_spec(which),
    {
        match which {
            FieldId::Server => self.server.as_str(),
            FieldId::Name => self.name.as_str(),
        }
    }

    /// What the field being edited holds once a key has been pressed.
    pub open spec fn edited(&self, key: Key) -> Seq<char> {
        let now = self.field_spec(self.focus);
        if self.attempt is Some {
            now
        } else {
            match key {
                Key::Backspace => if now.len() > 0 {
                    now.drop_last()
                } else {
                    now
                },
                Key::Typed(text) => typed(
                    now,
                    text@,
                    self.focus.limit_spec() as nat,
                    text@.len(),
                ),
                _ => now,
            }
        }
    }

    fn set_field(&mut self, which: FieldId, text: String)
        ensures
            which == FieldId::Server ==> final(self).server@ == text@ && final(self).name == old(self).name,
            which == FieldId::Name ==> final(self).name@ == text@ && final(self).server == old(self).server,
            final(self).field_spec(which) == text@,
            final(self).field_spec(which.other_spec()) == old(self).field_spec(which.other_spec()),
            *final(self) == (ConnectForm {
                server: final(self).server,
                name: final(self).name,
                ..*old(self)
            }),
    {
        match which {
            FieldId::Server => {
                self.server = text;
            },
            FieldId::Name => {
                self.name = text;
            },
        }
    }

    /// Takes a key. The fields belong to a handshake until it is over, so
    /// nothing edits them while one is under way.
    pub fn press(&mut self, key: Key) -> (r: Asked)
        ensures
            r == Asked::Submit <==> key is Enter,
            r == Asked::Cancel <==> key is Escape,
            old(self).attempt is Some ==> final(self).server@ == old(self).server@ && final(self).name@
                == old(self).name@,
            old(self).focus == FieldId::Server ==> final(self).name@ == old(self).name@,
            old(self).focus == FieldId::Name ==> final(self).server@ == old(self).server@,
            key is Walk ==> final(self).focus != old(self).focus && final(self).server@ == old(
                self,
            ).server@ && final(self).name@ == old(self).name@,
            key !is Walk ==> final(self).focus == old(self).focus,
            key is Backspace && old(self).attempt is None && old(self).focus == FieldId::Name && old(
                self,
            ).name@.len() > 0 ==> final(self).name@ == old(self).name@.drop_last(),
            r == match key {
                Key::Enter => Asked::Submit,
                Key::Escape => Asked::Cancel,
                _ => Asked::Nothing,
            },
            final(self).field_spec(old(self).focus) == old(self).edited(key),
            final(self).field_spec(old(self).focus.other_spec()) == old(self).field_spec(
                old(self).focus.other_spec(),
            ),
            *final(self) == (ConnectForm {
                server: final(self).server,
                name: final(self).name,
                focus: if key is Walk {
                    old(self).focus.other_spec()
                } else {
                    old(self).focus
                },
                ..*old(self)
            }),
    {
        let focus = self.focus;
        match key {
            Key::Enter => Asked::Submit,
            Key::Escape => Asked::Cancel,
            Key::Walk => {
                self.focus = focus.other();
                Asked::Nothing
            },
            Key::Backspace => {
                if self.attempt.is_none() {
                    let shorter = without_last(self.field(focus));
                    self.set_field(focus, shorter);
                }
                Asked::Nothing
            },
            Key::Typed(text) => {
                if self.attempt.is_none() {
                    let mut longer = self.field(focus).to_owned();
                    type_into(&mut longer, text.as_str(), focus.limit());
                    self.set_field(focus, longer);
                }
                Asked::Nothing
            },
        }
    }

    /// What the screen does next.
    pub open spec fn turn_spec(&self, submit: bool, cancel: bool, link: Option<Link>) -> Turn {
        if cancel && self.attempt is Some {
            Turn::Drop
        } else if (submit && self.attempt is None) || self.auto {
            Turn::Start
        } else if self.attempt is None {
            Turn::Stay
        } else {
            match link {
                Some(Link::Connected) => Turn::Play,
                Some(Link::Denied(_)) => Turn::Drop,
                _ => Turn::Stay,
            }
        }
    }

    /// Decides what the screen does next. `link` is how the handshake is doing,
    /// `waiting` how long it has gone on, and `seconds` that in whole seconds.
    pub fn turn(
        &mut self,
        submit: bool,
        cancel: bool,
        link: Option<Link>,
        waiting: Stamp,
        seconds: u32,
        wording: &Wording,
    ) -> (r: Turn)
        ensures
            cancel && old(self).attempt is Some ==> r == Turn::Drop && final(self).attempt is None,
            !cancel && submit && old(self).attempt is None ==> r == Turn::Start,
            !cancel && !submit && !old(self).auto && old(self).attempt is None ==> r == Turn::Stay,
            !cancel && old(self).attempt is Some && !old(self).auto ==> {
                &&& link == Some(Link::Connected) ==> r == Turn::Play
                &&& link is Some && link->0 is Denied ==> r == Turn::Drop && final(self).attempt is None
                    && final(self).trouble
                &&& link is None || link == Some(Link::Connecting) ==> r == Turn::Stay && final(self).attempt == old(self).attempt
            },
            final(self).server == old(self).server && final(self).name == old(self).name,
            r == old(self).turn_spec(submit, cancel, link),
            *final(self) == (ConnectForm {
                status: final(self).status,
                trouble: final(self).trouble,
                attempt: if r is Drop {
                    None
                } else {
                    old(self).attempt
                },
                auto: old(self).auto && !(r is Start && !(submit && old(self).attempt is None)),
                ..*old(self)
            }),
            match r {
                Turn::Drop => if cancel {
                    final(self).status@ == "Stopped trying"@ && !final(self).trouble
                } else {
                    &&& link is Some && link->0 is Denied
                    &&& final(self).status@ == refusal_words(link->0->Denied_0, wording)
                    &&& final(self).trouble
                },
                Turn::Stay => if old(self).attempt is Some && link == Some(Link::Connecting)
                    && waiting >= QUIET {
                    &&& final(self).status@ == no_reply_words(old(self).attempt->0@, seconds)
                    &&& final(self).trouble
                } else {
                    &&& final(self).status == old(self).status
                    &&& final(self).trouble == old(self).trouble
                },
                _ => {
                    &&& final(self).status == old(self).status
                    &&& final(self).trouble == old(self).trouble
                },
            },
    {
        if cancel && self.attempt.is_some() {
            self.attempt = None;
            self.status = "Stopped trying".to_owned();
            self.trouble = false;
            return Turn::Drop;
        }
        if submit && self.attempt.is_none() {
            return Turn::Start;
        }
        // A command line that already said where to go presses the button
        // itself.
        if self.auto {
            self.auto = false;
            return Turn::Start;
        }
        let mut quiet: Option<String> = None;
        if let Some(addr) = &self.attempt {
            match link {
                Some(Link::Connected) => {
                    return Turn::Play;
                },
                Some(Link::Denied(reason)) => {
                    self.attempt = None;
                    self.status = refusal(reason, wording);
                    self.trouble = true;
                    return Turn::Drop;
                },
                Some(Link::Connecting) => {
                    if waiting >= QUIET {
                        // Nothing here is an error yet -- the server may still
                        // be starting -- so the handshake keeps running
                        // underneath.
                        let mut line = "No reply from ".to_owned();
                        line.append(addr.as_str());
                        line.append(" after ");
                        push_decimal(&mut line, seconds as u64);
                        line.append(
                            "s. Is the server running, and is it listening on that address? A server on 0.0.0.0 cannot hear an IPv6 client. Esc to stop and edit.",
                        );
                        quiet = Some(line);
                    }
                },
                None => {},
            }
        }
        if let Some(line) = quiet {
            self.status = line;
            self.trouble = true;
        }
        Turn::Stay
    }

    /// A handshake has begun.
    pub fn started(&mut self, addr: &str)
        ensures
            final(self).attempt is Some,
            final(self).attempt->0@ == addr@,
            final(self).status@ == "Connecting to "@ + addr@ + "..."@,
            !final(self).trouble,
            *final(self) == (ConnectForm {
                attempt: final(self).attempt,
                status: final(self).status,
                trouble: false,
                ..*old(self)
            }),
    {
        self.attempt = Some(addr.to_owned());
        let mut line = "Connecting to ".to_owned();
        line.append(addr);
        line.append("...");
        self.status = line;
        self.trouble = false;
    }

    /// A handshake could not be begun.
    pub fn failed(&mut self, why: String)
        ensures
            *final(self) == (ConnectForm { status: why, trouble: true, ..*old(self) }),
    {
        self.status = why;
        self.trouble = true;
    }

    /// A socket could not be opened.
    pub fn no_socket(&mut self, why: &str)
        ensures
            final(self).status@ == "Could not open a socket: "@ + why@,
            *final(self) == (ConnectForm { status: final(self).status, trouble: true, ..*old(self) }),
    {
        let mut line = "Could not open a socket: ".to_owned();
        line.append(why);
        self.failed(line);
    }

    /// Whether the keys are going into a field.
    pub fn focused(&self, which: FieldId) -> (r: bool)
        ensures
            r == (self.attempt is None && self.focus == which),
    {
        self.attempt.is_none() && self.focus == which
    }

    /// What a field shows: what is in it, and a caret while the keys go into it.
    pub fn value_text(&self, which: FieldId) -> (r: String)
        ensures
            r@ == if self.attempt is None && self.focus == which {
                self.field_spec(which) + "|"@
            } else {
                self.field_spec(which)
            },
    {
        let mut out = self.field(which).to_owned();
        if self.focused(which) {
            out.append("|");
        }
        out
    }

    /// What the button says.
    pub fn button_text(&self) -> (r: &'static str)
        ensures
            r@ == if self.attempt is None {
                "Connect"@
            } else {
                "Connecting..."@
            },
    {
        if self.attempt.is_none() {
            "Connect"
        } else {
            "Connecting..."
        }
    }
}

/// However much is typed, a field never holds more than its limit, and never a
/// control character it did not already hold.
pub proof fn lemma_a_field_stops_at_its_limit(
    field: Seq<char>,
    text: Seq<char>,
    limit: nat,
    n: nat,
)
    requires
        field.len() <= limit,
        n <= text.len(),
        forall|i: int| 0 <= i < field.len() ==> !is_control(#[trigger] field[i]),
    ensures
        typed(field, text, limit, n).len() <= limit,
        forall|i: int|
            0 <= i < typed(field, text, limit, n).len() ==> !is_control(
                #[trigger] typed(field, text, limit, n)[i],
            ),
    decreases n,
{
    if n > 0 {
        lemma_a_field_stops_at_its_limit(field, text, limit, (n - 1) as nat);
    }
}

proof fn lemma_first_of_is_skipped(s: Seq<char>, c: char, tail: Seq<char>)
    requires
        forall|i: int| 0 <= i < s.len() ==> #[trigger] s[i] != c,
    ensures
        first_of(s + seq![c] + tail, c) == Some(s.len() as int),
    decreases s.len(),
{
    let whole = s + seq![c] + tail;
    if s.len() == 0 {
        assert(whole[0] == c);
    } else {
        assert(whole[0] == s[0]);
        assert(whole.skip(1) =~= s.skip(1) + seq![c] + tail);
        assert forall|i: int| 0 <= i < s.skip(1).len() implies #[trigger] s.skip(1)[i] != c by {
            assert(s.skip(1)[i] == s[i + 1]);
        }
        lemma_first_of_is_skipped(s.skip(1), c, tail);
    }
}

/// What is kept for the next launch reads back as it was.
pub proof fn lemma_what_is_remembered_is_recalled(server: Seq<char>, name: Seq<char>)
    requires
        server.len() > 0,
        trimmed(server) == server,
        trimmed(name) == name,
        forall|i: int| 0 <= i < server.len() ==> #[trigger] server[i] != '\n',
        forall|i: int| 0 <= i < name.len() ==> #[trigger] name[i] != '\n',
    ensures
        recalled(remembered_words(server, name)) == Some((server, name)),
{
    reveal_strlit("\n");
    assert("\n"@ =~= seq!['\n']);
    let text = remembered_words(server, name);
    let rest = name + seq!['\n'];
    assert(text =~= server + seq!['\n'] + rest);
    lemma_first_of_is_skipped(server, '\n', rest);
    assert(first_line(text) =~= server);
    assert(after_line(text) =~= rest);
    assert(rest =~= name + seq!['\n'] + Seq::empty());
    lemma_first_of_is_skipped(name, '\n', Seq::empty());
    assert(first_line(rest) =~= name);
}

/// Whatever is typed, the address that is looked up has a port or already
/// carried one: it holds a colon.
pub proof fn lemma_an_address_always_has_a_port(typed: Seq<char>)
    ensures
        count_of(meant(typed), ':') > 0,
{
    let text = if trimmed(typed).len() == 0 {
        "127.0.0.1"@
    } else {
        trimmed(typed)
    };
    lemma_port_words_hold_a_colon();
    match first_of(text, ']') {
        Some(i) => {
            if i + 1 < text.len() && text[i + 1] == ':' {
                lemma_first_of_is_there(text, ']');
                lemma_count_of_member(text, ':', i + 1);
            } else {
                lemma_count_of_sum(text, port_words(), ':');
            }
        },
        None => {
            lemma_count_of_sum("["@ + text + "]"@, port_words(), ':');
            lemma_count_of_sum(text, port_words(), ':');
        },
    }
}

proof fn lemma_first_of_is_there(s: Seq<char>, c: char)
    ensures
        first_of(s, c) is Some ==> 0 <= first_of(s, c)->0 < s.len(),
    decreases s.len(),
{
    if s.len() > 0 && s[0] != c {
        lemma_first_of_is_there(s.skip(1), c);
    }
}

proof fn lemma_count_of_member(s: Seq<char>, c: char, i: int)
    requires
        0 <= i < s.len(),
        s[i] == c,
    ensures
        count_of(s, c) > 0,
    decreases s.len(),
{
    if i < s.len() - 1 {
        lemma_count_of_member(s.drop_last(), c, i);
    }
}

proof fn lemma_port_words_hold_a_colon()
    ensures
        count_of(port_words(), ':') > 0,
{
    reveal_strlit(":");
    assert(":"@ =~= seq![':']);
    lemma_count_of_sum(":"@, digits(DEFAULT_PORT as nat), ':');
    assert(":"@.drop_last() =~= Seq::empty());
    assert(count_of(":"@, ':') == 1) by {
        reveal_with_fuel(count_of, 2);
    }
}

proof fn lemma_count_of_sum(a: Seq<char>, b: Seq<char>, c: char)
    ensures
        count_of(a + b, c) == count_of(a, c) + count_of(b, c),
    decreases b.len(),
{
    if b.len() == 0 {
        assert(a + b =~= a);
    } else {
        assert((a + b).drop_last() =~= a + b.drop_last());
        lemma_count_of_sum(a, b.drop_last(), c);
    }
}

/// Typing adds at the end, in order, and everything typed that is text goes in
/// while there is room.
pub proof fn lemma_typing_adds_at_the_end(
    field: Seq<char>,
    text: Seq<char>,
    limit: nat,
    n: nat,
)
    requires
        n <= text.len(),
    ensures
        field.is_prefix_of(typed(field, text, limit, n)),
        field.len() <= limit ==> typed(field, text, limit, n).len() <= limit,
        typed(field, text, limit, n).len() <= field.len() + n,
        field.len() + n <= limit && (forall|i: int| 0 <= i < n ==> !is_control(#[trigger] text[i]))
            ==> typed(field, text, limit, n) =~= field + text.take(n as int),
        forall|i: int|
            field.len() <= i < typed(field, text, limit, n).len() ==> !is_control(
                #[trigger] typed(field, text, limit, n)[i],
            ) && text.contains(typed(field, text, limit, n)[i]),
    decreases n,
{
    if n > 0 {
        let m = (n - 1) as nat;
        lemma_typing_adds_at_the_end(field, text, limit, m);
        let (before, all) = (typed(field, text, limit, m), typed(field, text, limit, n));
        assert(all == before || all == before.push(text[n - 1]));
        assert(all.take(field.len() as int) =~= before.take(field.len() as int));
        assert(text.contains(text[n - 1]));
        if field.len() + n <= limit && (forall|i: int|
            0 <= i < n ==> !is_control(#[trigger] text[i])) {
            assert(!is_control(text[n - 1]));
            assert(text.take(n as int) =~= text.take(m as int).push(text[n - 1]));
        }
    }
}

proof fn lemma_something_counted_is_there(s: Seq<char>, c: char)
    requires
        count_of(s, c) > 0,
    ensures
        exists|k: int| 0 <= k < s.len() && #[trigger] s[k] == c,
        s.contains(c),
    decreases s.len(),
{
    if s.last() == c {
        assert(s[s.len() - 1] == c);
    } else {
        lemma_something_counted_is_there(s.drop_last(), c);
        let k = choose|k: int| 0 <= k < s.drop_last().len() && #[trigger] s.drop_last()[k] == c;
        assert(s[k] == c);
    }
}

proof fn lemma_only_what_is_there_is_found(s: Seq<char>, c: char)
    ensures
        match first_of(s, c) {
            Some(i) => 0 <= i < s.len() && s[i] == c && s.contains(c),
            None => !s.contains(c),
        },
    decreases s.len(),
{
    if s.len() > 0 && s[0] != c {
        lemma_only_what_is_there_is_found(s.skip(1), c);
        match first_of(s.skip(1), c) {
            Some(i) => {
                assert(s[i + 1] == s.skip(1)[i]);
            },
            None => {
                if s.contains(c) {
                    let k = choose|k: int| 0 <= k < s.len() && s[k] == c;
                    assert(s.skip(1)[k - 1] == c);
                }
            },
        }
    }
}

/// A handshake is begun only when none is under way, or when the command line
/// asked for it, and left only for a match or for the form.
pub proof fn lemma_one_handshake_at_a_time(
    form: &ConnectForm,
    submit: bool,
    cancel: bool,
    link: Option<Link>,
)
    requires
        !form.auto,
    ensures
        form.turn_spec(submit, cancel, link) is Start ==> form.attempt is None && submit,
        form.turn_spec(submit, cancel, link) is Play ==> form.attempt is Some && link == Some(
            Link::Connected,
        ),
        form.turn_spec(submit, cancel, link) is Drop ==> form.attempt is Some && (cancel || (
        link is Some && link->0 is Denied)),
{
}

} // verus!
