//! Vote skipping: a track is force-skipped once half the members in the
//! bot's voice channel (rounded down) voted for it.

use vstd::prelude::*;
use crate::cache::clamp_displays;
use crate::engine::{force_skip_commands, force_skip_top_track, EngineCommand};
use crate::errors::ParrotError;
use crate::guild::GuildPlaybackState;

verus! {

/// Keeps the members of the channel.
pub open spec fn in_channel(members: Seq<u64>) -> spec_fn(u64) -> bool {
    |v: u64| members.contains(v)
}

/// The votes once `voter` voted, keeping only those of members still in
/// the channel.
pub open spec fn tally(votes: Seq<u64>, voter: u64, members: Seq<u64>) -> Seq<u64> {
    let with = if votes.contains(voter) { votes } else { votes.push(voter) };
    with.filter(in_channel(members))
}

/// Votes needed among `n` members in the channel.
pub open spec fn skip_threshold(n: nat) -> nat {
    n / 2
}

/// Whether the vote of `voter` makes the track skipped.
pub open spec fn vote_skips(votes: Seq<u64>, voter: u64, members: Seq<u64>) -> bool {
    tally(votes, voter, members).len() >= skip_threshold(members.len())
}

/// The votes after a vote are distinct when those before it were, and all
/// are members of the channel.
pub proof fn lemma_tally_distinct_members(votes: Seq<u64>, voter: u64, members: Seq<u64>)
    ensures
        votes.no_duplicates() ==> tally(votes, voter, members).no_duplicates(),
        forall|v: u64| #[trigger] tally(votes, voter, members).contains(v) ==> members.contains(v),
{
    let with = if votes.contains(voter) { votes } else { votes.push(voter) };
    let f = in_channel(members);
    if votes.no_duplicates() {
        assert(with.no_duplicates()) by {
            if !votes.contains(voter) {
                assert forall|i: int, j: int| 0 <= i < with.len() && 0 <= j < with.len() && i != j implies with[i] != with[j] by {
                    if i == votes.len() as int {
                        assert(!votes.contains(with[j]) || with[j] != voter);
                    } else if j == votes.len() as int {
                        assert(votes[i] != voter);
                    }
                }
            }
        }
        lemma_filter_no_dup(with, f);
    }
    assert forall|v: u64| #[trigger] with.filter(f).contains(v) implies members.contains(v) by {
        let i = choose|i: int| 0 <= i < with.filter(f).len() && with.filter(f)[i] == v;
        with.lemma_filter_pred(f, i);
    }
}

proof fn lemma_filter_no_dup(s: Seq<u64>, f: spec_fn(u64) -> bool)
    requires
        s.no_duplicates(),
    ensures
        s.filter(f).no_duplicates(),
    decreases s.len(),
{
    if s.len() > 0 {
        let init = s.drop_last();
        assert(init.push(s.last()) =~= s);
        assert(init.no_duplicates());
        lemma_filter_no_dup(init, f);
        init.lemma_filter_push(s.last(), f);
        if f(s.last()) {
            assert(!init.filter(f).contains(s.last())) by {
                if init.filter(f).contains(s.last()) {
                    init.lemma_filter_contains_rev(f, s.last());
                    assert(init.contains(s.last()));
                    let k = choose|k: int| 0 <= k < init.len() && init[k] == s.last();
                    assert(s[k] == s[s.len() - 1]);
                }
            }
        }
    }
}


#[derive(Debug)]
pub enum VoteOutcome {
    /// The threshold was met: the engine commands of the force skip.
    Skipped(Vec<EngineCommand>),
    /// This many more votes are needed.
    Missing(usize),
}

fn contains(v: &Vec<u64>, x: u64) -> (r: bool)
    ensures
        r == v@.contains(x),
{
    let mut i: usize = 0;
    while i < v.len()
        invariant
            0 <= i <= v@.len(),
            forall|j: int| 0 <= j < i ==> v@[j] != x,
        decreases v@.len() - i,
    {
        if v[i] == x {
            return true;
        }
        i += 1;
    }
    false
}

/// Records the vote of `voter`; `members` are the ids of the members in the
/// bot's voice channel, read now, and `N` is their number. Whether the bot
/// counts toward `N` is the caller's choice: it is one of `members` exactly
/// when the caller lists it (this bot's app lists it). Votes of members who
/// left, or of a voter who is not in the channel, are dropped.
pub fn voteskip(state: &mut GuildPlaybackState, live_len: usize, voter: u64, members: &Vec<u64>) -> (r:
    Result<VoteOutcome, ParrotError>)
    ensures
        live_len == 0 ==> r == Err::<VoteOutcome, ParrotError>(ParrotError::NothingPlaying)
            && *final(state) == *old(state),
        live_len > 0 ==> {
            let t = tally(old(state).cache.current_skip_votes@, voter, members@);
            let threshold = skip_threshold(members@.len());
            &&& final(state).settings == old(state).settings
            &&& final(state).stored_queue == old(state).stored_queue
            &&& old(state).cache.current_skip_votes@.no_duplicates()
                ==> final(state).cache.current_skip_votes@.no_duplicates()
            &&& forall|v: u64| #[trigger] final(state).cache.current_skip_votes@.contains(v) ==> members@.contains(v)
            &&& if vote_skips(old(state).cache.current_skip_votes@, voter, members@) {
                &&& r matches Ok(VoteOutcome::Skipped(cs)) && cs@ == force_skip_commands()
                &&& final(state).cache.current_skip_votes@.len() == 0
                &&& final(state).cache.queue_messages@ == clamp_displays(
                    old(state).cache.queue_messages@,
                    (live_len - 1) as nat,
                )
            } else {
                &&& r matches Ok(VoteOutcome::Missing(n)) && n == threshold - t.len()
                &&& final(state).cache.current_skip_votes@ == t
                &&& final(state).cache.queue_messages == old(state).cache.queue_messages
            }
        },
{
    if live_len == 0 {
        return Err(ParrotError::NothingPlaying);
    }
    let ghost before = state.cache.current_skip_votes@;
    let mut with: Vec<u64> = Vec::new();
    std::mem::swap(&mut with, &mut state.cache.current_skip_votes);
    if !contains(&with, voter) {
        with.push(voter);
    }
    let ghost with_v = with@;
    let mut kept: Vec<u64> = Vec::new();
    let mut i: usize = 0;
    while i < with.len()
        invariant
            0 <= i <= with@.len(),
            with@ == with_v,
            kept@ == with_v.subrange(0, i as int).filter(in_channel(members@)),
        decreases with@.len() - i,
    {
        let v = with[i];
        let ghost prefix = with_v.subrange(0, i as int);
        proof {
            assert(with_v.subrange(0, i + 1) =~= prefix.push(v));
            prefix.lemma_filter_push(v, in_channel(members@));
        }
        if contains(members, v) {
            kept.push(v);
        }
        i += 1;
        proof {
            assert(with_v.subrange(0, i as int) == prefix.push(v));
        }
    }
    proof {
        assert(with_v.subrange(0, i as int) =~= with_v);
    }
    proof {
        lemma_tally_distinct_members(before, voter, members@);
    }
    let threshold = members.len() / 2;
    if kept.len() >= threshold {
        state.cache.forget_skip_votes();
        state.cache.clamp_pages(live_len - 1);
        Ok(VoteOutcome::Skipped(force_skip_top_track()))
    } else {
        let missing = threshold - kept.len();
        state.cache.current_skip_votes = kept;
        Ok(VoteOutcome::Missing(missing))
    }
}

/// Drops every vote: the track voted on has ended.
pub fn forget_skip_votes(state: &mut GuildPlaybackState)
    ensures
        final(state).cache.current_skip_votes@.len() == 0,
        final(state).cache.queue_messages == old(state).cache.queue_messages,
        final(state).settings == old(state).settings,
        final(state).stored_queue == old(state).stored_queue,
{
    state.cache.forget_skip_votes();
}

} // verus!
