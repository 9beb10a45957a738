//! The replay buffer: what was enqueued in this round of the queue, kept so
//! that the queue can be played again once the engine's own queue drains.

use vstd::prelude::*;

verus! {

/// How a track is resolved and (re)played; not a playable handle.
#[derive(Debug, Clone, PartialEq, Eq)]
pub enum QueryType {
    Keywords(String),
    KeywordList(Vec<String>),
    VideoLink(String),
    PlaylistLink(String),
}

/// `s` without the positions in `[lo, hi)`; bounds outside `s` are clipped.
pub open spec fn drop_range<T>(s: Seq<T>, lo: int, hi: int) -> Seq<T> {
    let a = if lo < 0 { 0 } else if lo > s.len() { s.len() as int } else { lo };
    let b = if hi < a { a } else if hi > s.len() { s.len() as int } else { hi };
    s.subrange(0, a) + s.subrange(b, s.len() as int)
}

/// What a query says, as mathematical values.
pub enum QueryView {
    Keywords(Seq<char>),
    KeywordList(Seq<Seq<char>>),
    VideoLink(Seq<char>),
    PlaylistLink(Seq<char>),
}

impl View for QueryType {
    type V = QueryView;

    open spec fn view(&self) -> QueryView {
        match self {
            QueryType::Keywords(s) => QueryView::Keywords(s@),
            QueryType::KeywordList(list) => QueryView::KeywordList(
                list@.map_values(|k: String| k@),
            ),
            QueryType::VideoLink(s) => QueryView::VideoLink(s@),
            QueryType::PlaylistLink(s) => QueryView::PlaylistLink(s@),
        }
    }
}

/// The views of the items, in order.
pub open spec fn views(items: Seq<QueryType>) -> Seq<QueryView> {
    items.map_values(|q: QueryType| q@)
}

impl QueryType {
    /// A copy that says the same.
    pub fn duplicate(&self) -> (r: QueryType)
        ensures
            r@ == self@,
    {
        match self {
            QueryType::Keywords(s) => QueryType::Keywords(s.clone()),
            QueryType::VideoLink(s) => QueryType::VideoLink(s.clone()),
            QueryType::PlaylistLink(s) => QueryType::PlaylistLink(s.clone()),
            QueryType::KeywordList(list) => {
                let mut copy: Vec<String> = Vec::new();
                let mut i: usize = 0;
                while i < list.len()
                    invariant
                        0 <= i <= list@.len(),
                        copy@ == list@.subrange(0, i as int),
                    decreases list@.len() - i,
                {
                    copy.push(list[i].clone());
                    i += 1;
                    proof {
                        assert(copy@ =~= list@.subrange(0, i as int));
                    }
                }
                proof {
                    assert(copy@ =~= list@);
                    assert(copy@.map_values(|k: String| k@) =~= list@.map_values(|k: String| k@));
                }
                QueryType::KeywordList(copy)
            },
        }
    }
}

#[derive(Debug)]
pub struct GuildStoredQueue {
    /// Cleared by an explicit stop: no replay happens until it is set again.
    pub continue_play: bool,
    pub queue: Vec<QueryType>,
}

impl GuildStoredQueue {
    pub fn new() -> (r: Self)
        ensures
            r.continue_play,
            r.queue@.len() == 0,
    {
        Self { queue: Vec::new(), continue_play: true }
    }

    pub fn push(&mut self, item: QueryType)
        ensures
            final(self).queue@ == old(self).queue@.push(item),
            final(self).continue_play == old(self).continue_play,
    {
        self.queue.push(item);
    }

    /// Removes the items at positions `start..=end`, clipped to the buffer.
    pub fn drain_range(&mut self, start: usize, end: usize)
        ensures
            final(self).queue@ == drop_range(old(self).queue@, start as int, end as int + 1),
            final(self).continue_play == old(self).continue_play,
    {
        let len = self.queue.len();
        if start >= len || end < start {
            proof {
                assert(self.queue@ =~= drop_range(self.queue@, start as int, end as int + 1));
            }
            return;
        }
        let cut: usize = if end >= len - 1 { len } else { end + 1 };
        let mut tail = self.queue.split_off(cut);
        self.queue.truncate(start);
        self.queue.append(&mut tail);
        proof {
            assert(self.queue@ =~= drop_range(old(self).queue@, start as int, end as int + 1));
        }
    }

    /// Removes the positions in `[lo, hi)`, clipped to the buffer.
    pub fn drain_window(&mut self, lo: i128, hi: i128)
        ensures
            final(self).queue@ == drop_range(old(self).queue@, lo as int, hi as int),
            final(self).continue_play == old(self).continue_play,
    {
        let len = self.queue.len() as i128;
        let a: i128 = if lo < 0 { 0 } else if lo > len { len } else { lo };
        let b: i128 = if hi < a { a } else if hi > len { len } else { hi };
        if a < b {
            self.drain_range(a as usize, (b - 1) as usize);
        }
        proof {
            assert(self.queue@ =~= drop_range(old(self).queue@, lo as int, hi as int));
        }
    }

    pub fn clear(&mut self)
        ensures
            final(self).queue@.len() == 0,
            final(self).continue_play == old(self).continue_play,
    {
        self.queue.clear();
    }

    pub fn set(&mut self, items: Vec<QueryType>)
        ensures
            final(self).queue@ == items@,
            final(self).continue_play == old(self).continue_play,
    {
        self.queue = items;
    }

    /// Hands out every item, in order, and leaves the buffer empty.
    pub fn take_all(&mut self) -> (r: Vec<QueryType>)
        ensures
            r@ == old(self).queue@,
            final(self).queue@.len() == 0,
            final(self).continue_play == old(self).continue_play,
    {
        let mut items: Vec<QueryType> = Vec::new();
        std::mem::swap(&mut items, &mut self.queue);
        items
    }
}

} // verus!
