//! Where the author of a command and the bot are, and which commands that
//! allows.

use vstd::prelude::*;
use crate::errors::ParrotError;
use crate::queue::same_text;

verus! {

/// The voice channels of the author and of the bot, by id.
#[derive(Debug, Clone, Copy, PartialEq, Eq, Structural)]
pub enum Connection {
    /// Only the author is in a voice channel.
    User(u64),
    /// Only the bot is in a voice channel.
    Bot(u64),
    /// Both are, in the same channel: the bot's, then the author's.
    Mutual(u64, u64),
    /// Both are, in different channels: the bot's, then the author's.
    Separate(u64, u64),
    Neither,
}

pub open spec fn connection_of(user_channel: Option<u64>, bot_channel: Option<u64>) -> Connection {
    match (bot_channel, user_channel) {
        (Some(b), Some(u)) => if b == u { Connection::Mutual(b, u) } else { Connection::Separate(b, u) },
        (Some(b), None) => Connection::Bot(b),
        (None, Some(u)) => Connection::User(u),
        (None, None) => Connection::Neither,
    }
}

/// Relates the author's and the bot's voice channels.
pub fn check_voice_connections(user_channel: Option<u64>, bot_channel: Option<u64>) -> (r: Connection)
    ensures
        r == connection_of(user_channel, bot_channel),
{
    match (bot_channel, user_channel) {
        (Some(b), Some(u)) => if b == u { Connection::Mutual(b, u) } else { Connection::Separate(b, u) },
        (Some(b), None) => Connection::Bot(b),
        (None, Some(u)) => Connection::User(u),
        (None, None) => Connection::Neither,
    }
}

/// What a command asks of the connections.
#[derive(Debug, Clone, Copy, PartialEq, Eq, Structural)]
pub enum Access {
    /// Acts on the bot's playback: author and bot share a channel.
    Shared,
    /// Brings the bot into the author's channel.
    Join,
    /// Calls the bot into the author's channel.
    Summon,
    /// Shows playback: the bot must be connected.
    Look,
    /// Asks nothing.
    Free,
}

pub open spec fn names(name: Seq<char>, list: Seq<&str>) -> bool {
    exists|i: int| 0 <= i < list.len() && name == (#[trigger] list[i])@
}

pub open spec fn shared_commands() -> Seq<&'static str> {
    seq![
        "autopause", "clear", "leave", "pause", "remove", "repeat", "repeatqueue", "resume", "seek",
        "shuffle", "skip", "stop", "voteskip",
    ]
}

pub open spec fn access_spec(name: Seq<char>) -> Access {
    if names(name, shared_commands()) {
        Access::Shared
    } else if name == "summon"@ {
        Access::Summon
    } else if names(name, seq!["play", "superplay"]) {
        Access::Join
    } else if names(name, seq!["np", "queue"]) {
        Access::Look
    } else {
        Access::Free
    }
}

fn is_one_of(name: &str, list: &Vec<&'static str>) -> (r: bool)
    ensures
        r == names(name@, list@),
{
    let mut i: usize = 0;
    while i < list.len()
        invariant
            0 <= i <= list@.len(),
            forall|j: int| 0 <= j < i ==> name@ != (#[trigger] list@[j])@,
        decreases list@.len() - i,
    {
        if same_text(name, list[i]) {
            return true;
        }
        i += 1;
    }
    false
}

/// What the command of this name asks of the connections.
pub fn command_access(name: &str) -> (r: Access)
    ensures
        r == access_spec(name@),
{
    let shared = vec![
        "autopause", "clear", "leave", "pause", "remove", "repeat", "repeatqueue", "resume", "seek",
        "shuffle", "skip", "stop", "voteskip",
    ];
    proof {
        assert(shared@ =~= shared_commands());
    }
    if is_one_of(name, &shared) {
        return Access::Shared;
    }
    if same_text(name, "summon") {
        return Access::Summon;
    }
    let join = vec!["play", "superplay"];
    proof {
        assert(join@ =~= seq!["play", "superplay"]);
    }
    if is_one_of(name, &join) {
        return Access::Join;
    }
    let look = vec!["np", "queue"];
    proof {
        assert(look@ =~= seq!["np", "queue"]);
    }
    if is_one_of(name, &look) {
        return Access::Look;
    }
    Access::Free
}

pub open spec fn access_result(access: Access, c: Connection) -> Result<(), ParrotError> {
    match access {
        Access::Shared => match c {
            Connection::User(_) | Connection::Neither => Err(ParrotError::NotConnected),
            Connection::Bot(b) => Err(ParrotError::AuthorDisconnected(b)),
            Connection::Separate(_, _) => Err(ParrotError::WrongVoiceChannel),
            Connection::Mutual(_, _) => Ok(()),
        },
        Access::Join | Access::Summon => match c {
            Connection::User(_) => Ok(()),
            Connection::Bot(_) => if access == Access::Summon {
                Err(ParrotError::AuthorNotFound)
            } else {
                Err(ParrotError::WrongVoiceChannel)
            },
            Connection::Separate(b, _) => Err(ParrotError::AlreadyConnected(b)),
            Connection::Neither => Err(ParrotError::AuthorNotFound),
            Connection::Mutual(_, _) => Ok(()),
        },
        Access::Look => match c {
            Connection::User(_) | Connection::Neither => Err(ParrotError::NotConnected),
            _ => Ok(()),
        },
        Access::Free => Ok(()),
    }
}

/// Whether the command of this name may run with these connections, or
/// the error shown to its author.
pub fn check_access(name: &str, c: Connection) -> (r: Result<(), ParrotError>)
    ensures
        r == access_result(access_spec(name@), c),
{
    let access = command_access(name);
    match access {
        Access::Shared => match c {
            Connection::User(_) | Connection::Neither => Err(ParrotError::NotConnected),
            Connection::Bot(b) => Err(ParrotError::AuthorDisconnected(b)),
            Connection::Separate(_, _) => Err(ParrotError::WrongVoiceChannel),
            Connection::Mutual(_, _) => Ok(()),
        },
        Access::Join | Access::Summon => match c {
            Connection::User(_) => Ok(()),
            Connection::Bot(_) => if access == Access::Summon {
                Err(ParrotError::AuthorNotFound)
            } else {
                Err(ParrotError::WrongVoiceChannel)
            },
            Connection::Separate(b, _) => Err(ParrotError::AlreadyConnected(b)),
            Connection::Neither => Err(ParrotError::AuthorNotFound),
            Connection::Mutual(_, _) => Ok(()),
        },
        Access::Look => match c {
            Connection::User(_) | Connection::Neither => Err(ParrotError::NotConnected),
            _ => Ok(()),
        },
        Access::Free => Ok(()),
    }
}

} // verus!
