use parrot::commands::{clear, leave, remove, repeat_queue, skip, stop, summon};
use parrot::engine::{force_skip_top_track, EngineCommand};
use parrot::errors::{ParrotError, RangeField};
use parrot::guild::{GuildPlaybackState, GuildStateStore};
use parrot::stored_queue::{GuildStoredQueue, QueryType};
use parrot::track_end::track_end;
use parrot::voteskip::{forget_skip_votes, voteskip, VoteOutcome};

fn q(name: &str) -> QueryType {
    QueryType::Keywords(name.to_string())
}

/// The live queue as the engine would hold it: the playing track, then the
/// pending ones.
fn live_of(names: &[&str]) -> Vec<QueryType> {
    names.iter().map(|n| q(n)).collect()
}

/// Applies engine commands to a live queue held as a plain vector.
fn apply(live: &mut Vec<QueryType>, cmds: &[EngineCommand]) {
    for c in cmds {
        match c {
            EngineCommand::Dequeue(i) => {
                if *i < live.len() {
                    live.remove(*i);
                }
            }
            EngineCommand::Drain { start, end } => {
                live.drain(*start..=*end);
            }
            EngineCommand::StopAll => live.clear(),
            EngineCommand::Enqueue(item) => live.push(item.clone()),
            _ => {}
        }
    }
}

/// A guild whose replay buffer holds exactly the pending entries of `live`.
fn mirrored(live: &[QueryType]) -> GuildPlaybackState {
    let mut s = GuildPlaybackState::new(7);
    for item in live.iter().skip(1) {
        s.stored_queue.push(item.clone());
    }
    s
}

fn pending(live: &[QueryType]) -> Vec<QueryType> {
    live.iter().skip(1).cloned().collect()
}

#[test]
fn stored_queue_starts_empty_and_playing() {
    let sq = GuildStoredQueue::new();
    assert!(sq.continue_play);
    assert!(sq.queue.is_empty());
}

#[test]
fn stored_queue_operations() {
    let mut sq = GuildStoredQueue::new();
    for n in ["a", "b", "c", "d", "e"] {
        sq.push(q(n));
    }
    sq.drain_range(1, 2);
    assert_eq!(sq.queue, live_of(&["a", "d", "e"]));
    sq.drain_range(2, 10);
    assert_eq!(sq.queue, live_of(&["a", "d"]));
    sq.drain_range(5, 6);
    assert_eq!(sq.queue, live_of(&["a", "d"]));
    let all = sq.take_all();
    assert_eq!(all, live_of(&["a", "d"]));
    assert!(sq.queue.is_empty());
    sq.set(live_of(&["x", "y"]));
    assert_eq!(sq.queue, live_of(&["x", "y"]));
    sq.clear();
    assert!(sq.queue.is_empty());
    assert!(sq.continue_play);
}

#[test]
fn duplicate_says_the_same() {
    let k = QueryType::KeywordList(vec!["a b".to_string(), "c".to_string()]);
    assert_eq!(k.duplicate(), k);
    let v = QueryType::VideoLink("https://youtu.be/x".to_string());
    assert_eq!(v.duplicate(), v);
}

#[test]
fn remove_range_from_both_queues() {
    let mut live = live_of(&["now", "p1", "p2", "p3", "p4", "p5", "p6"]);
    let mut s = mirrored(&live);
    let cmds = remove(&mut s, live.len(), 2, Some(4)).unwrap();
    assert_eq!(cmds, vec![EngineCommand::Drain { start: 2, end: 4 }]);
    apply(&mut live, &cmds);
    assert_eq!(live, live_of(&["now", "p1", "p5", "p6"]));
    assert_eq!(s.stored_queue.queue, live_of(&["p1", "p5", "p6"]));
    assert_eq!(s.stored_queue.queue, pending(&live));
}

#[test]
fn remove_single_track_and_clamped_until() {
    let mut live = live_of(&["now", "p1", "p2", "p3"]);
    let mut s = mirrored(&live);
    let cmds = remove(&mut s, live.len(), 3, None).unwrap();
    apply(&mut live, &cmds);
    assert_eq!(s.stored_queue.queue, live_of(&["p1", "p2"]));
    let cmds = remove(&mut s, live.len(), 1, Some(100)).unwrap();
    assert_eq!(cmds, vec![EngineCommand::Drain { start: 1, end: 2 }]);
    apply(&mut live, &cmds);
    assert_eq!(live, live_of(&["now"]));
    assert!(s.stored_queue.queue.is_empty());
}

#[test]
fn remove_keeps_started_items_of_the_buffer() {
    let mut live = live_of(&["c", "d", "e"]);
    let mut s = GuildPlaybackState::new(1);
    for n in ["a", "b", "c", "d", "e"] {
        s.stored_queue.push(q(n));
    }
    let cmds = remove(&mut s, live.len(), 1, None).unwrap();
    apply(&mut live, &cmds);
    assert_eq!(live, live_of(&["c", "e"]));
    assert_eq!(s.stored_queue.queue, live_of(&["a", "b", "c", "e"]));
}

#[test]
fn remove_errors() {
    let mut s = mirrored(&live_of(&["now", "p1", "p2", "p3", "p4"]));
    assert_eq!(remove(&mut s, 1, 1, None), Err(ParrotError::QueueEmpty));
    assert_eq!(remove(&mut s, 0, 1, None), Err(ParrotError::QueueEmpty));
    assert_eq!(
        remove(&mut s, 5, 5, None),
        Err(ParrotError::NotInRange { field: RangeField::Index, value: 5, min: 1, max: 5 })
    );
    assert_eq!(
        remove(&mut s, 5, 0, None),
        Err(ParrotError::NotInRange { field: RangeField::Index, value: 0, min: 1, max: 5 })
    );
    assert_eq!(
        remove(&mut s, 5, 3, Some(2)),
        Err(ParrotError::NotInRange { field: RangeField::Until, value: 2, min: 3, max: 5 })
    );
    assert_eq!(s.stored_queue.queue.len(), 4);
}

#[test]
fn skip_clamped_to_the_queue() {
    let mut live = live_of(&["now", "p1", "p2"]);
    let mut s = mirrored(&live);
    let cmds = skip(&mut s, live.len(), 3).unwrap();
    let mut expected = vec![EngineCommand::Drain { start: 1, end: 2 }];
    expected.extend(force_skip_top_track());
    assert_eq!(cmds, expected);
    apply(&mut live, &cmds);
    assert!(live.is_empty());
    assert!(s.stored_queue.queue.is_empty());
}

#[test]
fn force_skip_is_stop_dequeue_resume() {
    assert_eq!(
        force_skip_top_track(),
        vec![EngineCommand::StopCurrent, EngineCommand::Dequeue(0), EngineCommand::Resume]
    );
}

#[test]
fn skip_counts_pending_tracks_only() {
    let mut live = live_of(&["t0", "t1", "t2"]);
    let mut s = mirrored(&live);
    let cmds = skip(&mut s, live.len(), 1).unwrap();
    let mut expected = vec![EngineCommand::Drain { start: 1, end: 1 }];
    expected.extend(force_skip_top_track());
    assert_eq!(cmds, expected);
    apply(&mut live, &cmds);
    assert_eq!(live, live_of(&["t2"]));
    assert_eq!(s.stored_queue.queue, live_of(&["t2"]));
}

#[test]
fn skip_zero_skips_only_the_playing_track() {
    let mut live = live_of(&["now", "p1", "p2", "p3"]);
    let mut s = mirrored(&live);
    let cmds = skip(&mut s, live.len(), 0).unwrap();
    assert_eq!(cmds, force_skip_top_track());
    apply(&mut live, &cmds);
    assert_eq!(live, live_of(&["p1", "p2", "p3"]));
    assert_eq!(s.stored_queue.queue, live_of(&["p1", "p2", "p3"]));
}

#[test]
fn skip_keeps_the_new_track_in_the_buffer() {
    let mut live = live_of(&["now", "p1", "p2", "p3"]);
    let mut s = mirrored(&live);
    let cmds = skip(&mut s, live.len(), 1).unwrap();
    apply(&mut live, &cmds);
    assert_eq!(live, live_of(&["p2", "p3"]));
    assert_eq!(s.stored_queue.queue, live_of(&["p2", "p3"]));
    let cmds = skip(&mut s, live.len(), 2).unwrap();
    apply(&mut live, &cmds);
    assert!(live.is_empty());
    assert_eq!(s.stored_queue.queue, live_of(&["p2"]));
}

#[test]
fn skip_on_empty_queue_fails() {
    let mut s = GuildPlaybackState::new(1);
    assert_eq!(skip(&mut s, 0, 1), Err(ParrotError::NothingPlaying));
}

#[test]
fn skip_drops_votes() {
    let live = live_of(&["now", "p1"]);
    let mut s = mirrored(&live);
    s.cache.current_skip_votes.push(3);
    skip(&mut s, live.len(), 1).unwrap();
    assert!(s.cache.current_skip_votes.is_empty());
}

#[test]
fn stop_abandons_everything() {
    let mut live = live_of(&["now", "p1", "p2"]);
    let mut s = mirrored(&live);
    let cmds = stop(&mut s, live.len()).unwrap();
    assert_eq!(cmds, vec![EngineCommand::StopAll]);
    apply(&mut live, &cmds);
    assert!(live.is_empty());
    assert!(s.stored_queue.queue.is_empty());
    assert!(!s.stored_queue.continue_play);
}

#[test]
fn stop_on_empty_queue_fails_but_still_clears() {
    let mut s = GuildPlaybackState::new(1);
    s.stored_queue.push(q("a"));
    assert_eq!(stop(&mut s, 0), Err(ParrotError::NothingPlaying));
    assert!(s.stored_queue.queue.is_empty());
    assert!(!s.stored_queue.continue_play);
}

#[test]
fn stop_prevents_replay() {
    let mut live = live_of(&["now", "p1"]);
    let mut s = mirrored(&live);
    repeat_queue(&mut s);
    assert!(s.settings.queue_loop);
    let cmds = stop(&mut s, live.len()).unwrap();
    apply(&mut live, &cmds);
    s.stored_queue.push(q("later"));
    let cmds = track_end(&mut s, live.len());
    assert!(cmds.iter().all(|c| !matches!(c, EngineCommand::Enqueue(_))));
    assert!(cmds.is_empty());
    summon(&mut s);
    let cmds = track_end(&mut s, 0);
    assert_eq!(cmds, vec![EngineCommand::Enqueue(q("later"))]);
}

#[test]
fn clear_keeps_the_playing_track() {
    let mut live = live_of(&["now", "p1", "p2"]);
    let mut s = GuildPlaybackState::new(1);
    for n in ["old", "now", "p1", "p2"] {
        s.stored_queue.push(q(n));
    }
    let cmds = clear(&mut s, live.len());
    assert_eq!(cmds, vec![EngineCommand::Drain { start: 1, end: 2 }]);
    apply(&mut live, &cmds);
    assert_eq!(live, live_of(&["now"]));
    assert_eq!(s.stored_queue.queue, live_of(&["old", "now"]));
    assert!(clear(&mut s, 1).is_empty());
    assert!(clear(&mut s, 0).is_empty());
    assert_eq!(s.stored_queue.queue, live_of(&["old", "now"]));
}

#[test]
fn any_sequence_of_commands_keeps_buffer_and_pending_aligned() {
    let mut live = live_of(&["now", "a", "b", "c", "d", "e", "f", "g", "h"]);
    let mut s = mirrored(&live);
    let cmds = remove(&mut s, live.len(), 2, Some(3)).unwrap();
    apply(&mut live, &cmds);
    assert_eq!(s.stored_queue.queue, pending(&live));
    let _ = remove(&mut s, live.len(), 9, None);
    assert_eq!(s.stored_queue.queue, pending(&live));
    let cmds = remove(&mut s, live.len(), 4, None).unwrap();
    apply(&mut live, &cmds);
    assert_eq!(s.stored_queue.queue, pending(&live));
    let cmds = skip(&mut s, live.len(), 7).unwrap();
    apply(&mut live, &cmds);
    assert!(live.is_empty());
    let n = s.stored_queue.queue.len();
    assert_eq!(n, 0);
    let _ = clear(&mut s, live.len());
    assert!(s.stored_queue.queue.is_empty());
}

#[test]
fn track_end_replays_the_buffer_once() {
    let mut s = GuildPlaybackState::new(2);
    s.stored_queue.push(q("a"));
    s.stored_queue.push(q("b"));
    s.settings.toggle_queue_loop();
    s.settings.toggle_autopause();
    s.cache.current_skip_votes.push(9);
    let mut live: Vec<QueryType> = Vec::new();
    let first = track_end(&mut s, live.len());
    assert_eq!(
        first,
        vec![EngineCommand::Pause, EngineCommand::Enqueue(q("a")), EngineCommand::Enqueue(q("b"))]
    );
    assert!(s.cache.current_skip_votes.is_empty());
    apply(&mut live, &first);
    assert_eq!(live, live_of(&["a", "b"]));
    let second = track_end(&mut s, live.len());
    assert_eq!(second, vec![EngineCommand::Pause]);
    apply(&mut live, &second);
    assert_eq!(live, live_of(&["a", "b"]));
    assert_eq!(s.stored_queue.queue, live_of(&["a", "b"]));
}

#[test]
fn track_end_without_loop_only_resets_votes() {
    let mut s = GuildPlaybackState::new(2);
    s.stored_queue.push(q("a"));
    s.cache.current_skip_votes.push(1);
    assert!(track_end(&mut s, 0).is_empty());
    assert!(s.cache.current_skip_votes.is_empty());
    s.settings.toggle_queue_loop();
    assert!(track_end(&mut s, 1).is_empty());
}

#[test]
fn vote_threshold_is_half_the_channel() {
    let members = vec![1, 2, 3, 4, 5];
    let mut s = mirrored(&live_of(&["now", "p1"]));
    match voteskip(&mut s, 2, 1, &members).unwrap() {
        VoteOutcome::Missing(n) => assert_eq!(n, 1),
        VoteOutcome::Skipped(_) => panic!("one vote of five members must not skip"),
    }
    match voteskip(&mut s, 2, 1, &members).unwrap() {
        VoteOutcome::Missing(n) => assert_eq!(n, 1),
        VoteOutcome::Skipped(_) => panic!("a repeated vote counts once"),
    }
    match voteskip(&mut s, 2, 2, &members).unwrap() {
        VoteOutcome::Skipped(cmds) => assert_eq!(cmds, force_skip_top_track()),
        VoteOutcome::Missing(_) => panic!("two votes of five members skip"),
    }
    assert!(s.cache.current_skip_votes.is_empty());
    assert_eq!(s.stored_queue.queue, live_of(&["p1"]));
}

#[test]
fn votes_of_absent_members_do_not_count() {
    let mut s = mirrored(&live_of(&["now"]));
    let members = vec![1, 2, 3, 4];
    match voteskip(&mut s, 1, 99, &members).unwrap() {
        VoteOutcome::Missing(n) => assert_eq!(n, 2),
        VoteOutcome::Skipped(_) => panic!("an outsider's vote must not count"),
    }
    assert!(s.cache.current_skip_votes.is_empty());
    voteskip(&mut s, 1, 1, &members).unwrap();
    assert_eq!(s.cache.current_skip_votes, vec![1]);
    let fewer = vec![2, 3, 4, 5, 6, 7];
    match voteskip(&mut s, 1, 2, &fewer).unwrap() {
        VoteOutcome::Missing(n) => assert_eq!(n, 2),
        VoteOutcome::Skipped(_) => panic!("the vote of a member who left is dropped"),
    }
    assert_eq!(s.cache.current_skip_votes, vec![2]);
    forget_skip_votes(&mut s);
    assert!(s.cache.current_skip_votes.is_empty());
}

#[test]
fn lone_member_skips_with_any_vote() {
    let mut s = mirrored(&live_of(&["now"]));
    assert!(matches!(voteskip(&mut s, 1, 1, &vec![1]).unwrap(), VoteOutcome::Skipped(_)));
    assert!(matches!(voteskip(&mut s, 0, 1, &vec![1]), Err(ParrotError::NothingPlaying)));
}

#[test]
fn repeat_queue_toggles() {
    let mut s = GuildPlaybackState::new(3);
    assert!(repeat_queue(&mut s));
    assert!(!repeat_queue(&mut s));
}

#[test]
fn leave_empties_the_buffer() {
    let mut s = GuildPlaybackState::new(3);
    s.stored_queue.push(q("a"));
    leave(&mut s);
    assert!(s.stored_queue.queue.is_empty());
    assert!(s.stored_queue.continue_play);
}

#[test]
fn store_gives_fresh_state_on_first_access() {
    let mut store = GuildStateStore::new();
    assert!(store.get(5).is_none());
    let mut s = store.take(5);
    assert_eq!(s.settings.guild_id, 5);
    assert!(s.stored_queue.continue_play);
    s.stored_queue.push(q("a"));
    store.put(5, s);
    assert_eq!(store.get(5).unwrap().stored_queue.queue.len(), 1);
    let s = store.take(5);
    assert_eq!(s.stored_queue.queue.len(), 1);
    assert!(store.get(5).is_none());
    let other = store.take(6);
    assert!(other.stored_queue.queue.is_empty());
}
