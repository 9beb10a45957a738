//! Errors a command can end in; each is shown to the user who invoked it.

use vstd::prelude::*;

verus! {

/// Which bound of a range argument was rejected.
#[derive(Debug, Clone, Copy, PartialEq, Eq, Structural)]
pub enum RangeField {
    Index,
    Until,
}

#[derive(Debug, Clone, Copy, PartialEq, Eq, Structural)]
pub enum ParrotError {
    /// The queue holds no track besides the one playing.
    QueueEmpty,
    /// Nothing is queued at all.
    NothingPlaying,
    /// An argument fell outside the range from `min` to the queue length `max`.
    NotInRange { field: RangeField, value: i64, min: i64, max: usize },
    NotConnected,
    WrongVoiceChannel,
    /// The bot already sits in another voice channel, given by its id.
    AlreadyConnected(u64),
    AuthorNotFound,
    /// The author left the bot's voice channel, given by its id.
    AuthorDisconnected(u64),
    /// A query could not be resolved into a playable track.
    ResolutionFailed,
}

/// `Ok(())` when `condition` holds, else the given error.
pub fn verify(condition: bool, err: ParrotError) -> (r: Result<(), ParrotError>)
    ensures
        condition ==> r is Ok,
        !condition ==> r == Err::<(), ParrotError>(err),
{
    if condition {
        Ok(())
    } else {
        Err(err)
    }
}

} // verus!
