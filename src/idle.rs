//! The idle check: the bot leaves after enough checks in a row find
//! nothing playing.

use vstd::prelude::*;

verus! {

/// The outcome of one idle check.
#[derive(Debug, Clone, Copy, PartialEq, Eq, Structural)]
pub struct IdleDecision {
    /// Checks in a row that found nothing playing.
    pub count: usize,
    /// Whether the bot leaves now; once it left, the count starts over.
    pub leave: bool,
}

/// One idle check: `count` checks in a row found nothing playing before,
/// `limit` is how many may, `playing` whether a track plays now.
pub fn idle_tick(count: usize, limit: usize, playing: bool) -> (r: IdleDecision)
    ensures
        playing ==> r == (IdleDecision { count: 0, leave: false }),
        !playing ==> r.leave == (count >= limit) && r.count == (if count == usize::MAX {
            0
        } else {
            count + 1
        }),
{
    if playing {
        return IdleDecision { count: 0, leave: false };
    }
    let next = if count == usize::MAX { 0 } else { count + 1 };
    IdleDecision { count: next, leave: count >= limit }
}

} // verus!
