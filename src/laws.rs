//! Properties that relate the commands, proved over the models their
//! contracts are stated in.

use vstd::prelude::*;
use crate::cache::{clamp_displays, cursors_valid, QueueDisplay};
use crate::commands::{pending_start, remove_decision, skip_span};
use crate::engine::{apply_command, apply_commands, force_skip_commands, mirrors, pending, EngineCommand};
use crate::guild::GuildPlaybackState;
use crate::stored_queue::{drop_range, views, QueryType, QueryView};
use crate::track_end::{is_replay_of, reaction_fits, replays};
use crate::voteskip::{in_channel, lemma_tally_distinct_members, skip_threshold, tally, vote_skips};

verus! {

/// One command of the queue mutation protocol.
pub enum QueueOp {
    Remove { index: i64, until: i64 },
    Skip { count: usize },
    Stop,
    Clear,
}

/// The engine commands `op` decides on a live queue of `n` tracks, as the
/// commands' contracts give them.
pub open spec fn op_commands(n: usize, op: QueueOp) -> Seq<EngineCommand> {
    match op {
        QueueOp::Remove { index, until } => match remove_decision(n, index, until) {
            Ok((lo, hi)) => seq![EngineCommand::Drain { start: lo as usize, end: hi as usize }],
            Err(_) => Seq::empty(),
        },
        QueueOp::Skip { count } => if n == 0 {
            Seq::empty()
        } else if skip_span(n, count) > 0 {
            seq![EngineCommand::Drain { start: 1, end: skip_span(n, count) as usize }] + force_skip_commands()
        } else {
            force_skip_commands()
        },
        QueueOp::Stop => if n == 0 { Seq::empty() } else { seq![EngineCommand::StopAll] },
        QueueOp::Clear => if n > 1 {
            seq![EngineCommand::Drain { start: 1, end: (n - 1) as usize }]
        } else {
            Seq::empty()
        },
    }
}

/// The replay buffer after `op` on a live queue of `n` tracks, as the
/// commands' contracts give it.
pub open spec fn op_items(items: Seq<QueryType>, n: usize, op: QueueOp) -> Seq<QueryType> {
    let start = pending_start(items.len(), n);
    match op {
        QueueOp::Remove { index, until } => match remove_decision(n, index, until) {
            Ok((lo, hi)) => drop_range(items, start + lo - 1, start + hi),
            Err(_) => items,
        },
        QueueOp::Skip { count } => if n == 0 {
            items
        } else {
            drop_range(items, start, start + skip_span(n, count))
        },
        QueueOp::Stop => Seq::empty(),
        QueueOp::Clear => drop_range(items, start, items.len() as int),
    }
}

/// The length the commands clamp the displays to, as their contracts give it.
pub open spec fn op_display_len(n: usize, op: QueueOp) -> Option<nat> {
    match op {
        QueueOp::Remove { index, until } => match remove_decision(n, index, until) {
            Ok((lo, hi)) => Some((n - (hi - lo + 1)) as nat),
            Err(_) => None,
        },
        QueueOp::Skip { count } => if n == 0 { None } else { Some((n - skip_span(n, count) - 1) as nat) },
        QueueOp::Stop => if n == 0 { None } else { Some(0) },
        QueueOp::Clear => Some(if n > 1 { 1 } else { n as nat }),
    }
}

/// The displays after `op`.
pub open spec fn op_displays(ds: Seq<QueueDisplay>, n: usize, op: QueueOp) -> Seq<QueueDisplay> {
    match op_display_len(n, op) {
        Some(len) => clamp_displays(ds, len),
        None => ds,
    }
}

/// Replay buffer, live queue and displays after the operations, in order.
pub open spec fn run_ops(
    items: Seq<QueryType>,
    live: Seq<QueryView>,
    ds: Seq<QueueDisplay>,
    ops: Seq<QueueOp>,
) -> (Seq<QueryType>, Seq<QueryView>, Seq<QueueDisplay>)
    decreases ops.len(),
{
    if ops.len() == 0 {
        (items, live, ds)
    } else {
        let n = live.len() as usize;
        let op = ops[0];
        run_ops(
            op_items(items, n, op),
            apply_commands(live, op_commands(n, op)),
            op_displays(ds, n, op),
            ops.drop_first(),
        )
    }
}

proof fn lemma_views_drop_range(items: Seq<QueryType>, lo: int, hi: int)
    ensures
        views(drop_range(items, lo, hi)) == drop_range(views(items), lo, hi),
{
    assert(views(drop_range(items, lo, hi)) =~= drop_range(views(items), lo, hi));
}

proof fn lemma_apply_one(live: Seq<QueryView>, c: EngineCommand)
    ensures
        apply_commands(live, seq![c]) == apply_command(live, c),
{
    reveal_with_fuel(apply_commands, 2);
    assert(seq![c].drop_first() =~= Seq::<EngineCommand>::empty());
}

/// Applying `a + b` is applying `a`, then `b`.
pub proof fn lemma_apply_concat(live: Seq<QueryView>, a: Seq<EngineCommand>, b: Seq<EngineCommand>)
    ensures
        apply_commands(live, a + b) == apply_commands(apply_commands(live, a), b),
    decreases a.len(),
{
    if a.len() == 0 {
        assert(a + b =~= b);
    } else {
        assert((a + b).drop_first() =~= a.drop_first() + b);
        lemma_apply_concat(apply_command(live, a[0]), a.drop_first(), b);
    }
}

proof fn lemma_force_skip(live: Seq<QueryView>)
    ensures
        apply_commands(live, force_skip_commands()) == if live.len() == 0 { live } else { live.drop_first() },
{
    reveal_with_fuel(apply_commands, 4);
    let cs = force_skip_commands();
    assert(cs.drop_first() =~= seq![EngineCommand::Dequeue(0), EngineCommand::Resume]);
    assert(cs.drop_first().drop_first() =~= seq![EngineCommand::Resume]);
    assert(cs.drop_first().drop_first().drop_first() =~= Seq::<EngineCommand>::empty());
    if live.len() > 0 {
        assert(live.remove(0) =~= live.drop_first());
    }
}

/// The live queue after `op` on `live`.
proof fn lemma_op_live(live: Seq<QueryView>, op: QueueOp)
    requires
        live.len() <= usize::MAX,
    ensures
        ({
            let n = live.len() as usize;
            let after = apply_commands(live, op_commands(n, op));
            &&& after.len() <= live.len()
            &&& match op_display_len(n, op) {
                Some(len) => after.len() == len,
                None => after == live,
            }
        }),
{
    let n = live.len() as usize;
    match op {
        QueueOp::Remove { index, until } => {
            match remove_decision(n, index, until) {
                Ok((lo, hi)) => {
                    lemma_apply_one(live, EngineCommand::Drain { start: lo as usize, end: hi as usize });
                },
                Err(_) => {},
            }
        },
        QueueOp::Skip { count } => {
            if n > 0 {
                let span = skip_span(n, count);
                if span > 0 {
                    let d = EngineCommand::Drain { start: 1, end: span as usize };
                    lemma_apply_concat(live, seq![d], force_skip_commands());
                    lemma_apply_one(live, d);
                    lemma_force_skip(apply_command(live, d));
                } else {
                    lemma_force_skip(live);
                }
            }
        },
        QueueOp::Stop => {
            if n > 0 {
                lemma_apply_one(live, EngineCommand::StopAll);
            }
        },
        QueueOp::Clear => {
            if n > 1 {
                lemma_apply_one(live, EngineCommand::Drain { start: 1, end: (n - 1) as usize });
            }
        },
    }
}

} // verus!

verus! {

/// Whether `op` on a live queue of `n` tracks makes a pending track the
/// playing one (a skip that leaves tracks behind).
pub open spec fn promotes(n: usize, op: QueueOp) -> bool {
    match op {
        QueueOp::Skip { count } => n > 0 && skip_span(n, count) + 1 < n,
        _ => false,
    }
}

proof fn lemma_mirror_index(items: Seq<QueryType>, live: Seq<QueryView>)
    requires
        mirrors(views(items), live),
        live.len() <= usize::MAX,
    ensures
        pending_start(items.len(), live.len() as usize) == views(items).len() - pending(live).len(),
        forall|j: int| 0 <= j < pending(live).len() ==> views(items)[pending_start(items.len(), live.len() as usize) + j]
            == #[trigger] pending(live)[j],
        forall|j: int| 0 <= j < pending(live).len() ==> #[trigger] pending(live)[j] == live[j + 1],
{
    let v = views(items);
    let p = pending(live);
    let start = pending_start(items.len(), live.len() as usize);
    assert forall|j: int| 0 <= j < p.len() implies v[start + j] == #[trigger] p[j] by {
        assert(v.subrange(start, v.len() as int)[j] == v[start + j]);
    }
}

proof fn lemma_remove_mirror(items: Seq<QueryType>, live: Seq<QueryView>, index: i64, until: i64)
    requires
        mirrors(views(items), live),
        live.len() <= usize::MAX,
    ensures
        ({
            let n = live.len() as usize;
            let op = QueueOp::Remove { index, until };
            let items2 = op_items(items, n, op);
            let live2 = apply_commands(live, op_commands(n, op));
            &&& mirrors(views(items2), live2)
            &&& views(items2).len() - pending(live2).len() == views(items).len() - pending(live).len()
        }),
{
    let n = live.len() as usize;
    let op = QueueOp::Remove { index, until };
    lemma_mirror_index(items, live);
    let v = views(items);
    let p = pending(live);
    let m = v.len() as int;
    let start = pending_start(items.len(), n);
    let items2 = op_items(items, n, op);
    let live2 = apply_commands(live, op_commands(n, op));
    match remove_decision(n, index, until) {
        Ok((lo, hi)) => {
            lemma_apply_one(live, EngineCommand::Drain { start: lo as usize, end: hi as usize });
            lemma_views_drop_range(items, start + lo - 1, start + hi);
            let v2 = views(items2);
            let p2 = pending(live2);
            assert(live2 =~= live.subrange(0, lo) + live.subrange(hi + 1, live.len() as int));
            assert(v2 =~= v.subrange(0, start + lo - 1) + v.subrange(start + hi, m));
            let k = hi - lo + 1;
            assert forall|j: int| 0 <= j < p2.len() implies v2[start + j] == p2[j] by {
                assert(p2[j] == live2[j + 1]);
                if j < lo - 1 {
                    assert(v2[start + j] == v[start + j]);
                    assert(v[start + j] == p[j]);
                    assert(live2[j + 1] == live[j + 1]);
                } else {
                    assert(v2[start + j] == v[start + j + k]);
                    assert(v[start + j + k] == p[j + k]);
                    assert(p[j + k] == live[j + k + 1]);
                    assert(live2[j + 1] == live[hi + 1 + (j + 1 - lo)]);
                }
            }
            assert(v2.subrange(v2.len() - p2.len(), v2.len() as int) =~= p2);
        },
        Err(_) => {
            lemma_apply_empty(live);
        },
    }
}

proof fn lemma_apply_empty(live: Seq<QueryView>)
    ensures
        apply_commands(live, Seq::empty()) == live,
{
}

proof fn lemma_skip_live(live: Seq<QueryView>, count: usize)
    requires
        0 < live.len() <= usize::MAX,
    ensures
        apply_commands(live, op_commands(live.len() as usize, QueueOp::Skip { count }))
            == live.subrange(skip_span(live.len() as usize, count) + 1int, live.len() as int),
{
    let n = live.len() as usize;
    let span = skip_span(n, count);
    let d = EngineCommand::Drain { start: 1, end: span as usize };
    if span > 0 {
        lemma_apply_concat(live, seq![d], force_skip_commands());
        lemma_apply_one(live, d);
        lemma_force_skip(apply_command(live, d));
        assert(apply_command(live, d) =~= live.subrange(0, 1) + live.subrange(span + 1int, live.len() as int));
    } else {
        lemma_force_skip(live);
    }
    assert(apply_commands(live, op_commands(n, QueueOp::Skip { count })) =~= live.subrange(span + 1int, live.len() as int));
}

proof fn lemma_skip_mirror(items: Seq<QueryType>, live: Seq<QueryView>, count: usize)
    requires
        mirrors(views(items), live),
        live.len() <= usize::MAX,
    ensures
        ({
            let n = live.len() as usize;
            let op = QueueOp::Skip { count };
            let items2 = op_items(items, n, op);
            let live2 = apply_commands(live, op_commands(n, op));
            &&& mirrors(views(items2), live2)
            &&& !promotes(n, op) ==> views(items2).len() - pending(live2).len() == views(items).len()
                - pending(live).len()
        }),
{
    let n = live.len() as usize;
    let op = QueueOp::Skip { count };
    let items2 = op_items(items, n, op);
    let live2 = apply_commands(live, op_commands(n, op));
    if n > 0 {
        lemma_mirror_index(items, live);
        let v = views(items);
        let p = pending(live);
        let m = v.len() as int;
        let start = pending_start(items.len(), n);
        let span = skip_span(n, count);
        lemma_views_drop_range(items, start, start + span);
        lemma_skip_live(live, count);
        let v2 = views(items2);
        let p2 = pending(live2);
        assert(v2 =~= v.subrange(0, start) + v.subrange(start + span, m));
        assert forall|j: int| 0 <= j < p2.len() implies v2[v2.len() - p2.len() + j] == p2[j] by {
            let i = m - p2.len() + j;
            assert(v2[v2.len() - p2.len() + j] == v[i]);
            assert(v[i] == p[i - start]);
            assert(p2[j] == live2[j + 1]);
        }
        assert(v2.subrange(v2.len() - p2.len(), v2.len() as int) =~= p2);
    } else {
        lemma_apply_empty(live);
    }
}

proof fn lemma_op_mirror(items: Seq<QueryType>, live: Seq<QueryView>, op: QueueOp)
    requires
        mirrors(views(items), live),
        live.len() <= usize::MAX,
    ensures
        ({
            let n = live.len() as usize;
            let items2 = op_items(items, n, op);
            let live2 = apply_commands(live, op_commands(n, op));
            &&& mirrors(views(items2), live2)
            &&& views(items).len() == pending(live).len() && !promotes(n, op) ==> views(items2).len()
                == pending(live2).len()
        }),
{
    let n = live.len() as usize;
    let items2 = op_items(items, n, op);
    let live2 = apply_commands(live, op_commands(n, op));
    match op {
        QueueOp::Remove { index, until } => lemma_remove_mirror(items, live, index, until),
        QueueOp::Skip { count } => lemma_skip_mirror(items, live, count),
        QueueOp::Stop => {
            assert(views(items2) =~= Seq::<QueryView>::empty());
            if n > 0 {
                lemma_apply_one(live, EngineCommand::StopAll);
            } else {
                lemma_apply_empty(live);
            }
            assert(views(items2).subrange(0, 0) =~= pending(live2));
        },
        QueueOp::Clear => {
            let start = pending_start(items.len(), n);
            lemma_mirror_index(items, live);
            lemma_views_drop_range(items, start, items.len() as int);
            let v2 = views(items2);
            if n > 1 {
                lemma_apply_one(live, EngineCommand::Drain { start: 1, end: (n - 1) as usize });
            } else {
                lemma_apply_empty(live);
            }
            assert(pending(live2).len() == 0);
            assert(v2.subrange(v2.len() as int, v2.len() as int) =~= pending(live2));
        },
    }
}

/// Any sequence of remove, skip, stop and clear keeps the pending entries of
/// the live queue as the last items of the replay buffer, index for index:
/// the items before them are those that started playing.
pub proof fn lemma_ops_keep_mirror(
    items: Seq<QueryType>,
    live: Seq<QueryView>,
    ds: Seq<QueueDisplay>,
    ops: Seq<QueueOp>,
)
    requires
        mirrors(views(items), live),
        live.len() <= usize::MAX,
    ensures
        mirrors(views(run_ops(items, live, ds, ops).0), run_ops(items, live, ds, ops).1),
    decreases ops.len(),
{
    if ops.len() > 0 {
        let n = live.len() as usize;
        lemma_op_mirror(items, live, ops[0]);
        lemma_op_live(live, ops[0]);
        lemma_ops_keep_mirror(
            op_items(items, n, ops[0]),
            apply_commands(live, op_commands(n, ops[0])),
            op_displays(ds, n, ops[0]),
            ops.drop_first(),
        );
    }
}

/// Whether no operation of the run makes a pending track the playing one.
pub open spec fn promotes_none(
    items: Seq<QueryType>,
    live: Seq<QueryView>,
    ds: Seq<QueueDisplay>,
    ops: Seq<QueueOp>,
) -> bool
    decreases ops.len(),
{
    if ops.len() == 0 {
        true
    } else {
        let n = live.len() as usize;
        !promotes(n, ops[0]) && promotes_none(
            op_items(items, n, ops[0]),
            apply_commands(live, op_commands(n, ops[0])),
            op_displays(ds, n, ops[0]),
            ops.drop_first(),
        )
    }
}

/// When the replay buffer holds exactly the pending entries, it still holds
/// as many items as the live queue has pending entries after any sequence of
/// remove, skip, stop and clear in which no skip makes a pending track the
/// playing one (such a track has started, and stays in the buffer).
pub proof fn lemma_ops_keep_pending_count(
    items: Seq<QueryType>,
    live: Seq<QueryView>,
    ds: Seq<QueueDisplay>,
    ops: Seq<QueueOp>,
)
    requires
        views(items) == pending(live),
        live.len() <= usize::MAX,
        promotes_none(items, live, ds, ops),
    ensures
        run_ops(items, live, ds, ops).0.len() == pending(run_ops(items, live, ds, ops).1).len(),
    decreases ops.len(),
{
    if ops.len() > 0 {
        let n = live.len() as usize;
        assert(views(items).subrange(0, views(items).len() as int) =~= views(items));
        lemma_op_mirror(items, live, ops[0]);
        lemma_op_live(live, ops[0]);
        let items2 = op_items(items, n, ops[0]);
        let live2 = apply_commands(live, op_commands(n, ops[0]));
        let v2 = views(items2);
        assert(v2 =~= v2.subrange(v2.len() - pending(live2).len(), v2.len() as int));
        lemma_ops_keep_pending_count(items2, live2, op_displays(ds, n, ops[0]), ops.drop_first());
    }
}

/// After any sequence of remove, skip, stop and clear, every display's
/// cursor lies on a page of the live queue, when it did at the start.
pub proof fn lemma_ops_keep_cursors_valid(
    items: Seq<QueryType>,
    live: Seq<QueryView>,
    ds: Seq<QueueDisplay>,
    ops: Seq<QueueOp>,
)
    requires
        cursors_valid(ds, live.len()),
        live.len() <= usize::MAX,
    ensures
        cursors_valid(run_ops(items, live, ds, ops).2, run_ops(items, live, ds, ops).1.len()),
    decreases ops.len(),
{
    if ops.len() > 0 {
        let n = live.len() as usize;
        lemma_op_live(live, ops[0]);
        let live2 = apply_commands(live, op_commands(n, ops[0]));
        let ds2 = op_displays(ds, n, ops[0]);
        match op_display_len(n, ops[0]) {
            Some(len) => lemma_clamp_valid(ds, len),
            None => {},
        }
        lemma_ops_keep_cursors_valid(op_items(items, n, ops[0]), live2, ds2, ops.drop_first());
    }
}

/// Clamping to a queue of `len` tracks puts every cursor on one of its
/// pages; a cursor is lowered to the last page, never raised, and one that
/// was on a page stays.
pub proof fn lemma_clamp_valid(ds: Seq<QueueDisplay>, len: nat)
    ensures
        cursors_valid(clamp_displays(ds, len), len),
        clamp_displays(ds, len).len() == ds.len(),
        forall|i: int| 0 <= i < ds.len() ==> {
            let d2 = #[trigger] clamp_displays(ds, len)[i];
            &&& d2.message_id == ds[i].message_id
            &&& d2.page <= ds[i].page
            &&& ds[i].page < crate::queue::num_pages(len) ==> d2.page == ds[i].page
        },
{
}

} // verus!

verus! {

proof fn lemma_apply_replay(live: Seq<QueryView>, cs: Seq<EngineCommand>, items: Seq<QueryType>)
    requires
        is_replay_of(cs, items),
    ensures
        apply_commands(live, cs) == live + views(items),
    decreases cs.len(),
{
    if cs.len() == 0 {
        assert(live + views(items) =~= live);
    } else {
        let rest = items.drop_first();
        assert(is_replay_of(cs.drop_first(), rest)) by {
            assert forall|i: int| #![trigger cs.drop_first()[i]] 0 <= i < cs.drop_first().len() implies cs.drop_first()[i] is Enqueue
                && cs.drop_first()[i]->Enqueue_0@ == rest[i]@ by {
                assert(cs.drop_first()[i] == cs[i + 1]);
            }
        }
        lemma_apply_replay(live.push(items[0]@), cs.drop_first(), rest);
        assert(live.push(items[0]@) + views(rest) =~= live + views(items));
    }
}

/// The live queue after one reaction to the end of a track: the replayed
/// items are appended when a replay is due, and nothing else changes.
pub proof fn lemma_reaction_effect(cs: Seq<EngineCommand>, s: GuildPlaybackState, live: Seq<QueryView>)
    requires
        reaction_fits(cs, s, live.len() as usize),
        live.len() <= usize::MAX,
    ensures
        apply_commands(live, cs) == if replays(s, live.len() as usize) {
            live + views(s.stored_queue.queue@)
        } else {
            live
        },
{
    let items = if replays(s, live.len() as usize) { s.stored_queue.queue@ } else { Seq::empty() };
    if s.settings.autopause {
        assert(cs =~= seq![cs[0]] + cs.subrange(1, cs.len() as int));
        lemma_apply_concat(live, seq![cs[0]], cs.subrange(1, cs.len() as int));
        lemma_apply_one(live, cs[0]);
        lemma_apply_replay(live, cs.subrange(1, cs.len() as int), items);
    } else {
        assert(cs.subrange(0, cs.len() as int) =~= cs);
        lemma_apply_replay(live, cs, items);
    }
    assert(live + views(Seq::<QueryType>::empty()) =~= live);
}

/// A second reaction right after the first, on the live queue the first
/// left, changes nothing: the buffer is replayed at most once per emptying.
pub proof fn lemma_second_reaction_replays_nothing(
    s: GuildPlaybackState,
    live: Seq<QueryView>,
    cs1: Seq<EngineCommand>,
    s1: GuildPlaybackState,
    cs2: Seq<EngineCommand>,
)
    requires
        live.len() + s.stored_queue.queue@.len() <= usize::MAX,
        reaction_fits(cs1, s, live.len() as usize),
        s1.settings == s.settings,
        s1.stored_queue == s.stored_queue,
        reaction_fits(cs2, s1, apply_commands(live, cs1).len() as usize),
    ensures
        apply_commands(apply_commands(live, cs1), cs2) == apply_commands(live, cs1),
{
    lemma_reaction_effect(cs1, s, live);
    let live1 = apply_commands(live, cs1);
    lemma_reaction_effect(cs2, s1, live1);
    if replays(s1, live1.len() as usize) {
        assert(live1.len() == 0);
        assert(views(s.stored_queue.queue@).len() == 0);
        assert(live1 + views(s1.stored_queue.queue@) =~= live1);
    }
}

/// The track is skipped exactly when the tally after the vote reaches half
/// the channel's members, rounded down: a tally of `floor(N/2)` skips it
/// among `N` members, one of `floor(N/2) - 1` does not.
pub proof fn lemma_vote_threshold(votes: Seq<u64>, voter: u64, members: Seq<u64>)
    ensures
        tally(votes, voter, members).len() == skip_threshold(members.len()) ==> vote_skips(votes, voter, members),
        tally(votes, voter, members).len() + 1 == skip_threshold(members.len()) ==> !vote_skips(votes, voter, members),
{
}

proof fn lemma_filter_keeps_all(s: Seq<u64>, f: spec_fn(u64) -> bool)
    requires
        forall|i: int| 0 <= i < s.len() ==> f(#[trigger] s[i]),
    ensures
        s.filter(f) == s,
    decreases s.len(),
{
    if s.len() > 0 {
        let init = s.drop_last();
        assert(init.push(s.last()) =~= s);
        lemma_filter_keeps_all(init, f);
        init.lemma_filter_push(s.last(), f);
    } else {
        assert(s.filter(f) =~= s) by {
            s.lemma_filter_len(f);
        }
    }
}

/// When the votes are distinct members of the channel and the voter is one
/// too, the tally is the set of the votes with the voter's, and the track is
/// skipped exactly when that set holds half the members, rounded down:
/// `floor(N/2)` distinct votes among `N` members skip it, `floor(N/2) - 1`
/// do not.
pub proof fn lemma_vote_threshold_in_channel(votes: Seq<u64>, voter: u64, members: Seq<u64>)
    requires
        votes.no_duplicates(),
        forall|v: u64| #[trigger] votes.contains(v) ==> members.contains(v),
        members.contains(voter),
    ensures
        tally(votes, voter, members).len() == votes.to_set().insert(voter).len(),
        vote_skips(votes, voter, members) <==> votes.to_set().insert(voter).len() >= members.len() / 2,
        votes.to_set().insert(voter).len() == members.len() / 2 ==> vote_skips(votes, voter, members),
        votes.to_set().insert(voter).len() + 1 == members.len() / 2 ==> !vote_skips(votes, voter, members),
{
    let with = if votes.contains(voter) { votes } else { votes.push(voter) };
    let f = in_channel(members);
    lemma_tally_distinct_members(votes, voter, members);
    assert forall|i: int| 0 <= i < with.len() implies f(#[trigger] with[i]) by {
        if i < votes.len() {
            assert(votes.contains(votes[i]));
        }
    }
    lemma_filter_keeps_all(with, f);
    with.unique_seq_to_set();
    assert(with.to_set() =~= votes.to_set().insert(voter)) by {
        assert forall|v: u64| with.to_set().contains(v) <==> votes.to_set().insert(voter).contains(v) by {
            if !votes.contains(voter) {
                if v == voter {
                    assert(with[votes.len() as int] == voter);
                }
                if votes.contains(v) {
                    let k = choose|k: int| 0 <= k < votes.len() && votes[k] == v;
                    assert(with[k] == v);
                }
                if with.contains(v) {
                    let k = choose|k: int| 0 <= k < with.len() && with[k] == v;
                    if k < votes.len() {
                        assert(votes[k] == v);
                    }
                }
            }
        }
    }
}

} // verus!
