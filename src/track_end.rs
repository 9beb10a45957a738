//! The reaction to the end of a track, and the refresh of the open queue
//! displays after the queue changed.

use vstd::prelude::*;
use crate::cache::{clamp_displays, cursors_valid, QueueDisplay};
use crate::engine::EngineCommand;
use crate::guild::GuildPlaybackState;
use crate::stored_queue::QueryType;

verus! {

/// Whether the end of a track with `live_len` tracks left replays the buffer:
/// the queue loops, no stop intervened, and the live queue has drained.
pub open spec fn replays(s: GuildPlaybackState, live_len: usize) -> bool {
    s.settings.queue_loop && s.stored_queue.continue_play && live_len == 0
}

/// One `Enqueue` per item, in order, each of a query that says the same.
pub open spec fn is_replay_of(cs: Seq<EngineCommand>, items: Seq<QueryType>) -> bool {
    &&& cs.len() == items.len()
    &&& forall|i: int| #![trigger cs[i]] 0 <= i < cs.len() ==> cs[i] is Enqueue && cs[i]->Enqueue_0@ == items[i]@
}

/// The engine commands of the reaction: a pause under autopause, then the
/// replay of the buffer when it is due.
pub open spec fn reaction_fits(cs: Seq<EngineCommand>, s: GuildPlaybackState, live_len: usize) -> bool {
    let p: int = if s.settings.autopause { 1 } else { 0 };
    let items = if replays(s, live_len) { s.stored_queue.queue@ } else { Seq::empty() };
    &&& cs.len() == p + items.len()
    &&& s.settings.autopause ==> cs[0] == EngineCommand::Pause
    &&& is_replay_of(cs.subrange(p, cs.len() as int), items)
}

/// Reacts to the end of a track; `live_len` is the length of the live queue
/// read just now. Pauses under autopause, replays the buffer when the queue
/// loops and has drained, drops the votes to skip, and clamps the displays.
/// A query that cannot be resolved is skipped by the caller, which goes on
/// with the next.
pub fn track_end(state: &mut GuildPlaybackState, live_len: usize) -> (r: Vec<EngineCommand>)
    ensures
        reaction_fits(r@, *old(state), live_len),
        final(state).settings == old(state).settings,
        final(state).stored_queue == old(state).stored_queue,
        final(state).cache.current_skip_votes@.len() == 0,
        final(state).cache.queue_messages@ == clamp_displays(old(state).cache.queue_messages@, live_len as nat),
{
    let mut cmds: Vec<EngineCommand> = Vec::new();
    if state.settings.autopause {
        cmds.push(EngineCommand::Pause);
    }
    let p = cmds.len();
    if state.settings.queue_loop && state.stored_queue.continue_play && live_len == 0 {
        let mut i: usize = 0;
        while i < state.stored_queue.queue.len()
            invariant
                0 <= i <= state.stored_queue.queue@.len(),
                *state == *old(state),
                p == (if state.settings.autopause { 1int } else { 0int }),
                cmds@.len() == p + i,
                state.settings.autopause ==> cmds@[0] == EngineCommand::Pause,
                is_replay_of(cmds@.subrange(p as int, cmds@.len() as int), state.stored_queue.queue@.subrange(0, i as int)),
            decreases state.stored_queue.queue@.len() - i,
        {
            let q = state.stored_queue.queue[i].duplicate();
            let ghost prev = cmds@;
            cmds.push(EngineCommand::Enqueue(q));
            i += 1;
            proof {
                let cs = cmds@.subrange(p as int, cmds@.len() as int);
                let items = state.stored_queue.queue@.subrange(0, i as int);
                assert forall|j: int| 0 <= j < cs.len() implies #[trigger] cs[j] is Enqueue && cs[j]->Enqueue_0@ == items[j]@ by {
                    if j < cs.len() - 1 {
                        assert(cs[j] == prev.subrange(p as int, prev.len() as int)[j]);
                    }
                }
            }
        }
        proof {
            assert(state.stored_queue.queue@.subrange(0, i as int) =~= state.stored_queue.queue@);
        }
    } else {
        proof {
            assert(cmds@.subrange(p as int, cmds@.len() as int) =~= Seq::<EngineCommand>::empty());
        }
    }
    state.cache.forget_skip_votes();
    state.cache.clamp_pages(live_len);
    cmds
}

/// Clamps every open display to a queue that now holds `live_len` tracks and
/// hands out the displays to draw again. A display that cannot be drawn is
/// then forgotten by the caller.
pub fn update_queue_messages(state: &mut GuildPlaybackState, live_len: usize) -> (r: Vec<QueueDisplay>)
    ensures
        final(state).cache.queue_messages@ == clamp_displays(old(state).cache.queue_messages@, live_len as nat),
        r@ == final(state).cache.queue_messages@,
        cursors_valid(r@, live_len as nat),
        final(state).cache.current_skip_votes == old(state).cache.current_skip_votes,
        final(state).settings == old(state).settings,
        final(state).stored_queue == old(state).stored_queue,
{
    state.cache.clamp_pages(live_len);
    let mut r: Vec<QueueDisplay> = Vec::new();
    let mut i: usize = 0;
    while i < state.cache.queue_messages.len()
        invariant
            0 <= i <= state.cache.queue_messages@.len(),
            r@ == state.cache.queue_messages@.subrange(0, i as int),
        decreases state.cache.queue_messages@.len() - i,
    {
        r.push(state.cache.queue_messages[i]);
        i += 1;
        proof {
            assert(r@ =~= state.cache.queue_messages@.subrange(0, i as int));
        }
    }
    proof {
        assert(r@ =~= state.cache.queue_messages@);
    }
    r
}

} // verus!
