//! The queue mutation protocol: each command changes the replay buffer and
//! decides the engine commands that change the live queue the same way, and
//! ends by clamping every open display to the queue's new length.
//!
//! `live_len` is the number of tracks the live queue holds (the playing one
//! included), read while the caller holds the guild's lock.

use vstd::prelude::*;
use crate::cache::clamp_displays;
use crate::engine::{force_skip_commands, force_skip_top_track, EngineCommand};
use crate::errors::{ParrotError, RangeField};
use crate::guild::GuildPlaybackState;
use crate::stored_queue::drop_range;

verus! {

/// Number of live entries that have not started playing.
pub open spec fn pending_len(live_len: usize) -> nat {
    if live_len == 0 { 0 } else { (live_len - 1) as nat }
}

/// Position in the replay buffer of the first pending entry: the pending
/// entries are its last items.
pub open spec fn pending_start(items_len: nat, live_len: usize) -> int {
    items_len - pending_len(live_len)
}

/// `until` lowered to the last position of a queue of `len` tracks.
pub open spec fn clamp_until(len: usize, until: i64) -> int {
    if until < len - 1 { until as int } else { len - 1 }
}

/// The live positions `remove` drains from a queue of `len` tracks, or the
/// error it fails with.
pub open spec fn remove_decision(len: usize, index: i64, until: i64) -> Result<(int, int), ParrotError> {
    let u = clamp_until(len, until);
    if len <= 1 {
        Err(ParrotError::QueueEmpty)
    } else if index < 1 || index >= len {
        Err(ParrotError::NotInRange { field: RangeField::Index, value: index, min: 1, max: len })
    } else if u < index {
        Err(ParrotError::NotInRange { field: RangeField::Until, value: u as i64, min: index, max: len })
    } else {
        Ok((index as int, u))
    }
}

/// Everything but the replay buffer's items and the displays is as before.
pub open spec fn keeps_rest(a: GuildPlaybackState, b: GuildPlaybackState) -> bool {
    &&& b.settings == a.settings
    &&& b.stored_queue.continue_play == a.stored_queue.continue_play
    &&& b.cache.current_skip_votes == a.cache.current_skip_votes
}

/// Removes the tracks at positions `index..=until` (1 is the next track;
/// `until` defaults to `index` and is lowered to the last track) from the
/// live queue and the replay buffer together.
pub fn remove(state: &mut GuildPlaybackState, live_len: usize, index: i64, until: Option<i64>) -> (r:
    Result<Vec<EngineCommand>, ParrotError>)
    ensures
        ({
            let u = match until { Some(u) => u, None => index };
            match remove_decision(live_len, index, u) {
                Ok((lo, hi)) => {
                    &&& r is Ok
                    &&& r->Ok_0@ == seq![EngineCommand::Drain { start: lo as usize, end: hi as usize }]
                    &&& final(state).stored_queue.queue@ == drop_range(
                        old(state).stored_queue.queue@,
                        pending_start(old(state).stored_queue.queue@.len(), live_len) + lo - 1,
                        pending_start(old(state).stored_queue.queue@.len(), live_len) + hi,
                    )
                    &&& final(state).cache.queue_messages@ == clamp_displays(
                        old(state).cache.queue_messages@,
                        (live_len - (hi - lo + 1)) as nat,
                    )
                    &&& keeps_rest(*old(state), *final(state))
                },
                Err(e) => r == Err::<Vec<EngineCommand>, ParrotError>(e) && *final(state) == *old(state),
            }
        }),
{
    let remove_until: i64 = match until {
        Some(u) => u,
        None => index,
    };
    let len = live_len as i128;
    let clamped: i128 = if (remove_until as i128) < len - 1 { remove_until as i128 } else { len - 1 };
    if live_len <= 1 {
        return Err(ParrotError::QueueEmpty);
    }
    if index < 1 || index as i128 >= len {
        return Err(ParrotError::NotInRange { field: RangeField::Index, value: index, min: 1, max: live_len });
    }
    if clamped < index as i128 {
        return Err(ParrotError::NotInRange { field: RangeField::Until, value: clamped as i64, min: index, max: live_len });
    }
    let start = state.stored_queue.queue.len() as i128 - (len - 1);
    state.stored_queue.drain_window(start + index as i128 - 1, start + clamped);
    let end = clamped as usize;
    state.cache.clamp_pages(live_len - (end - index as usize + 1));
    Ok(vec![EngineCommand::Drain { start: index as usize, end }])
}

/// Pending entries `skip` drains before it force-skips: up to `count`, the
/// playing track not counted, clamped to the pending entries there are.
pub open spec fn skip_span(len: usize, count: usize) -> nat {
    let pending = if len == 0 { 0 } else { (len - 1) as nat };
    if count < pending { count as nat } else { pending }
}

/// Removes up to `count` pending tracks from both queues (the playing track
/// not counted), then force-skips the playing track. The votes to skip are
/// dropped.
pub fn skip(state: &mut GuildPlaybackState, live_len: usize, count: usize) -> (r: Result<
    Vec<EngineCommand>,
    ParrotError,
>)
    ensures
        live_len == 0 ==> r == Err::<Vec<EngineCommand>, ParrotError>(ParrotError::NothingPlaying)
            && *final(state) == *old(state),
        live_len > 0 ==> {
            let span = skip_span(live_len, count);
            let start = pending_start(old(state).stored_queue.queue@.len(), live_len);
            &&& r is Ok
            &&& r->Ok_0@ == if span > 0 {
                seq![EngineCommand::Drain { start: 1, end: span as usize }] + force_skip_commands()
            } else {
                force_skip_commands()
            }
            &&& final(state).stored_queue.queue@ == drop_range(old(state).stored_queue.queue@, start, start + span)
            &&& final(state).cache.queue_messages@ == clamp_displays(
                old(state).cache.queue_messages@,
                (live_len - span - 1) as nat,
            )
            &&& final(state).cache.current_skip_votes@.len() == 0
            &&& final(state).settings == old(state).settings
            &&& final(state).stored_queue.continue_play == old(state).stored_queue.continue_play
        },
{
    if live_len == 0 {
        return Err(ParrotError::NothingPlaying);
    }
    let span: usize = if count < live_len - 1 { count } else { live_len - 1 };
    let start = state.stored_queue.queue.len() as i128 - (live_len as i128 - 1);
    state.stored_queue.drain_window(start, start + span as i128);
    let mut cmds: Vec<EngineCommand> = Vec::new();
    if span > 0 {
        cmds.push(EngineCommand::Drain { start: 1, end: span });
    }
    let mut force = force_skip_top_track();
    cmds.append(&mut force);
    proof {
        if span > 0 {
            assert(cmds@ =~= seq![EngineCommand::Drain { start: 1, end: span }] + force_skip_commands());
        } else {
            assert(cmds@ =~= force_skip_commands());
        }
    }
    state.cache.forget_skip_votes();
    state.cache.clamp_pages(live_len - span - 1);
    Ok(cmds)
}

/// Stops playback: no replay until the next connection, the replay buffer
/// emptied, and the live queue stopped with every entry abandoned. The
/// buffer is emptied even when nothing is queued.
pub fn stop(state: &mut GuildPlaybackState, live_len: usize) -> (r: Result<Vec<EngineCommand>, ParrotError>)
    ensures
        !final(state).stored_queue.continue_play,
        final(state).stored_queue.queue@.len() == 0,
        final(state).settings == old(state).settings,
        live_len == 0 ==> r == Err::<Vec<EngineCommand>, ParrotError>(ParrotError::NothingPlaying)
            && final(state).cache == old(state).cache,
        live_len > 0 ==> {
            &&& r is Ok
            &&& r->Ok_0@ == seq![EngineCommand::StopAll]
            &&& final(state).cache.current_skip_votes@.len() == 0
            &&& final(state).cache.queue_messages@ == clamp_displays(old(state).cache.queue_messages@, 0)
        },
{
    state.stored_queue.continue_play = false;
    state.stored_queue.clear();
    if live_len == 0 {
        return Err(ParrotError::NothingPlaying);
    }
    state.cache.forget_skip_votes();
    state.cache.clamp_pages(0);
    let cmds = vec![EngineCommand::StopAll];
    proof {
        assert(cmds@ =~= seq![EngineCommand::StopAll]);
    }
    Ok(cmds)
}

/// Removes every pending entry from both queues; the playing track plays on.
pub fn clear(state: &mut GuildPlaybackState, live_len: usize) -> (r: Vec<EngineCommand>)
    ensures
        r@ == if live_len > 1 {
            seq![EngineCommand::Drain { start: 1, end: (live_len - 1) as usize }]
        } else {
            Seq::<EngineCommand>::empty()
        },
        final(state).stored_queue.queue@ == drop_range(
            old(state).stored_queue.queue@,
            pending_start(old(state).stored_queue.queue@.len(), live_len),
            old(state).stored_queue.queue@.len() as int,
        ),
        final(state).cache.queue_messages@ == clamp_displays(
            old(state).cache.queue_messages@,
            if live_len > 1 { 1 } else { live_len as nat },
        ),
        keeps_rest(*old(state), *final(state)),
{
    let n = state.stored_queue.queue.len() as i128;
    let pending: i128 = if live_len == 0 { 0 } else { live_len as i128 - 1 };
    state.stored_queue.drain_window(n - pending, n);
    if live_len > 1 {
        state.cache.clamp_pages(1);
        let cmds = vec![EngineCommand::Drain { start: 1, end: live_len - 1 }];
        proof {
            assert(cmds@ =~= seq![EngineCommand::Drain { start: 1, end: (live_len - 1) as usize }]);
        }
        cmds
    } else {
        state.cache.clamp_pages(live_len);
        Vec::new()
    }
}

} // verus!

verus! {

/// Toggles looping of the whole queue; gives the new setting.
pub fn repeat_queue(state: &mut GuildPlaybackState) -> (r: bool)
    ensures
        r == final(state).settings.queue_loop,
        r == !old(state).settings.queue_loop,
        final(state).settings.autopause == old(state).settings.autopause,
        final(state).settings.track_loop == old(state).settings.track_loop,
        final(state).stored_queue == old(state).stored_queue,
        final(state).cache == old(state).cache,
{
    state.settings.toggle_queue_loop();
    state.settings.queue_loop
}

/// The bot (re)connected to a voice channel: replay is allowed again.
pub fn summon(state: &mut GuildPlaybackState)
    ensures
        final(state).stored_queue.continue_play,
        final(state).stored_queue.queue == old(state).stored_queue.queue,
        final(state).settings == old(state).settings,
        final(state).cache == old(state).cache,
{
    state.stored_queue.continue_play = true;
}

/// The bot leaves its voice channel: the replay buffer is emptied, and the
/// displays show an empty queue.
pub fn leave(state: &mut GuildPlaybackState)
    ensures
        final(state).stored_queue.queue@.len() == 0,
        final(state).stored_queue.continue_play == old(state).stored_queue.continue_play,
        final(state).settings == old(state).settings,
        final(state).cache.current_skip_votes == old(state).cache.current_skip_votes,
        final(state).cache.queue_messages@ == clamp_displays(old(state).cache.queue_messages@, 0),
{
    state.stored_queue.clear();
    state.cache.clamp_pages(0);
}

} // verus!

verus! {

/// What the author of a skip is told.
#[derive(Debug, Clone, Copy, PartialEq, Eq, Structural)]
pub enum SkipResponse {
    /// A track plays now: its title and link are shown.
    SkipTo,
    /// Nothing plays any more, and more than one track was skipped.
    SkipAll,
    /// Nothing plays any more, and one track was skipped.
    Skip,
}

/// Tracks a skip of `count` takes out of a queue of `live_len`: the drained
/// pending ones and the playing one.
pub open spec fn tracks_skipped(live_len: usize, count: usize) -> nat {
    if live_len == 0 { 0 } else { skip_span(live_len, count) + 1 }
}

/// The response to a skip of `count` on a queue of `live_len` tracks, once
/// the engine tells whether a track plays now.
pub fn create_skip_response(now_playing: bool, live_len: usize, count: usize) -> (r: SkipResponse)
    ensures
        now_playing ==> r == SkipResponse::SkipTo,
        !now_playing && tracks_skipped(live_len, count) > 1 ==> r == SkipResponse::SkipAll,
        !now_playing && tracks_skipped(live_len, count) <= 1 ==> r == SkipResponse::Skip,
{
    let skipped: usize = if live_len == 0 {
        0
    } else if count < live_len - 1 {
        count + 1
    } else {
        live_len
    };
    if now_playing {
        SkipResponse::SkipTo
    } else if skipped > 1 {
        SkipResponse::SkipAll
    } else {
        SkipResponse::Skip
    }
}

} // verus!
