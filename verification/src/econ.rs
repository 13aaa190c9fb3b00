//! The console link's codec: how incoming chunks become text and how
//! commands become lines. The transport itself lives with the caller.

use crate::text::{chars_of, push_char};
use vstd::prelude::*;
use vstd::string::*;
use vstd::utf8::{decode_utf8, valid_utf8};

verus! {

/// What `String::from_utf8_lossy` makes of a byte string: its text, with
/// each invalid sequence replaced by U+FFFD.
pub uninterp spec fn utf8_lossy(bytes: Seq<u8>) -> Seq<char>;

/// Decodes with `String::from_utf8_lossy`. Valid UTF-8 decodes to the text
/// it encodes; the call never fails.
#[verifier::external_body]
fn decode_lossy(bytes: &[u8]) -> (text: String)
    ensures
        text@ == utf8_lossy(bytes@),
        valid_utf8(bytes@) ==> text@ == decode_utf8(bytes@),
{
    String::from_utf8_lossy(bytes).into_owned()
}

/// What arrived from the console connection.
pub enum ConsoleEvent {
    /// A chunk of data.
    Data(Vec<u8>),
    /// Anything else: a keepalive, a negotiation, a timeout.
    Other,
}

/// A text without its NUL characters.
pub open spec fn without_nul(text: Seq<char>) -> Seq<char> {
    text.filter(|c: char| c != '\0')
}

/// The text of a received chunk: decoded leniently, NUL characters removed.
pub open spec fn chunk_text(bytes: Seq<u8>) -> Seq<char> {
    without_nul(utf8_lossy(bytes))
}

/// The line that carries a command: the command and a line feed.
pub open spec fn command_line(command: Seq<char>) -> Seq<char> {
    command.push('\n')
}

/// The line that broadcasts a message to the players.
pub open spec fn say_line(message: Seq<char>) -> Seq<char> {
    command_line("say "@ + message)
}

/// Removes the NUL characters of a text.
pub fn strip_nul(text: &str) -> (out: String)
    ensures
        out@ == without_nul(text@),
{
    let chars = chars_of(text);
    let mut out = String::new();
    let ghost keep = |c: char| c != '\0';
    let mut i: usize = 0;
    assert(chars@.take(0) == Seq::<char>::empty());
    proof {
        reveal(Seq::filter);
    }
    while i < chars.len()
        invariant
            i <= chars.len(),
            chars@ == text@,
            keep == (|c: char| c != '\0'),
            out@ == chars@.take(i as int).filter(keep),
        decreases chars.len() - i,
    {
        let c: char = chars[i];
        proof {
            reveal(Seq::filter);
            assert(chars@.take(i + 1).drop_last() == chars@.take(i as int));
            assert(chars@.take(i + 1).last() == c);
        }
        if c != '\0' {
            push_char(&mut out, c);
        }
        i = i + 1;
    }
    assert(chars@.take(i as int) == chars@);
    out
}

/// Session side of the console link.
pub struct Econ {
    /// Whether the console has accepted the password.
    pub authed: bool,
}

impl Econ {
    /// A link that has not authenticated yet.
    pub fn new() -> (econ: Econ)
        ensures
            !econ.authed,
    {
        Econ { authed: false }
    }

    /// The text of an incoming event: `Some` for a data chunk, `None` for
    /// anything else.
    pub fn read(&self, event: &ConsoleEvent) -> (text: Option<String>)
        ensures
            match *event {
                ConsoleEvent::Data(bytes) => text.is_some() && text.unwrap()@ == chunk_text(
                    bytes@,
                ),
                ConsoleEvent::Other => text.is_none(),
            },
    {
        match event {
            ConsoleEvent::Data(buffer) => {
                let decoded = decode_lossy(buffer.as_slice());
                Some(strip_nul(decoded.as_str()))
            },
            ConsoleEvent::Other => None,
        }
    }

    /// The line to write for a command.
    pub fn send_rcon_cmd(&self, command: String) -> (line: String)
        ensures
            line@ == command_line(command@),
    {
        let mut command = command;
        push_char(&mut command, '\n');
        command
    }

    /// The line to write to broadcast a message.
    pub fn rcon_say(&self, message: String) -> (line: String)
        ensures
            line@ == say_line(message@),
    {
        let mut command = String::from_str("say ");
        command.append(message.as_str());
        self.send_rcon_cmd(command)
    }
}

} // verus!
