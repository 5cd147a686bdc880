//! The line-based engine-control protocol: each input line parses to an
//! optional command for the worker and the text to answer. Sending the
//! command and printing the answer is the caller's business.

use vstd::prelude::*;

use crate::worker::Command;

verus! {

/// What each protocol line parses to: the command to hand to the worker,
/// and the reply text. Unknown lines yield no command and an empty reply.
pub open spec fn spec_uci_command(s: Seq<char>) -> (Option<Command>, Seq<char>) {
    if s == "uci"@ {
        (None::<Command>, "id name woodpusher\nid author S\u{e9}bastien Willmann\nuciok"@)
    } else if s == "isready"@ {
        (Some(Command::Ready), "readyok"@)
    } else if s == "position startpos"@ {
        (Some(Command::StartPos), ""@)
    } else if s == "go"@ {
        (Some(Command::Go), ""@)
    } else if s == "stop"@ {
        (Some(Command::Stop), ""@)
    } else if s == "quit"@ {
        (Some(Command::Quit), ""@)
    } else {
        (None::<Command>, ""@)
    }
}

/// Parses one protocol line as [`spec_uci_command`] says.
pub fn uci_command(input: &str) -> (r: (Option<Command>, String))
    ensures
        r.0 == spec_uci_command(input@).0,
        r.1@ == spec_uci_command(input@).1,
{
    let line = input.to_owned();
    if line == "uci".to_owned() {
        (None, "id name woodpusher\nid author S\u{e9}bastien Willmann\nuciok".to_owned())
    } else if line == "isready".to_owned() {
        (Some(Command::Ready), "readyok".to_owned())
    } else if line == "position startpos".to_owned() {
        (Some(Command::StartPos), "".to_owned())
    } else if line == "go".to_owned() {
        (Some(Command::Go), "".to_owned())
    } else if line == "stop".to_owned() {
        (Some(Command::Stop), "".to_owned())
    } else if line == "quit".to_owned() {
        (Some(Command::Quit), "".to_owned())
    } else {
        (None, "".to_owned())
    }
}

} // verus!
