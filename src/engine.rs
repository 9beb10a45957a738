//! The commands this library asks of the playback engine, and a model of
//! what each does to the engine's live queue (index 0 is the track playing).

use vstd::prelude::*;
use crate::stored_queue::{drop_range, QueryType, QueryView};

verus! {

#[derive(Debug, Clone, PartialEq, Eq)]
pub enum EngineCommand {
    /// Signal the playing track to stop; errors (it already ended) are ignored.
    StopCurrent,
    /// Take the entry at this index out of the live queue.
    Dequeue(usize),
    /// Take the entries `start..=end` out of the live queue, in one mutation.
    Drain { start: usize, end: usize },
    /// Stop the live queue and abandon every entry.
    StopAll,
    Pause,
    Resume,
    /// Resolve this query and append what it yields; a failure is logged and
    /// the query skipped.
    Enqueue(QueryType),
}

/// The live queue after one command; stopping or pausing a track does not by
/// itself change what the queue holds.
pub open spec fn apply_command(live: Seq<QueryView>, c: EngineCommand) -> Seq<QueryView> {
    match c {
        EngineCommand::Dequeue(i) => if i < live.len() { live.remove(i as int) } else { live },
        EngineCommand::Drain { start, end } => drop_range(live, start as int, end as int + 1),
        EngineCommand::StopAll => Seq::empty(),
        EngineCommand::Enqueue(q) => live.push(q@),
        _ => live,
    }
}

/// The live queue after the commands, applied in order.
pub open spec fn apply_commands(live: Seq<QueryView>, cs: Seq<EngineCommand>) -> Seq<QueryView>
    decreases cs.len(),
{
    if cs.len() == 0 {
        live
    } else {
        apply_commands(apply_command(live, cs[0]), cs.drop_first())
    }
}

/// The entries that have not started playing yet.
pub open spec fn pending(live: Seq<QueryView>) -> Seq<QueryView> {
    if live.len() == 0 { live } else { live.drop_first() }
}

/// The pending entries of the live queue are the last items of the replay
/// buffer, index for index; the items before them have started playing.
pub open spec fn mirrors(items: Seq<QueryView>, live: Seq<QueryView>) -> bool {
    let p = pending(live);
    &&& p.len() <= items.len()
    &&& items.subrange(items.len() - p.len(), items.len() as int) == p
}

/// The force-skip sequence: the engine applies queue changes late, and
/// dequeuing alone does not start the next track, so the playing track is
/// stopped, dequeued and the queue resumed, in this order.
pub open spec fn force_skip_commands() -> Seq<EngineCommand> {
    seq![EngineCommand::StopCurrent, EngineCommand::Dequeue(0), EngineCommand::Resume]
}

pub fn force_skip_top_track() -> (r: Vec<EngineCommand>)
    ensures
        r@ == force_skip_commands(),
{
    let r = vec![EngineCommand::StopCurrent, EngineCommand::Dequeue(0), EngineCommand::Resume];
    proof {
        assert(r@ =~= force_skip_commands());
    }
    r
}

} // verus!
