//! Per-guild UI state: the open queue displays with their page cursors, and
//! the votes to skip the playing track.

use vstd::prelude::*;
use crate::queue::{nav_target, navigate, num_pages, NavAction};

verus! {

/// An open paginated queue display and the page it shows.
#[derive(Debug, Clone, Copy, PartialEq, Eq, Structural)]
pub struct QueueDisplay {
    pub message_id: u64,
    pub page: usize,
}

/// `page` lowered, never raised, to the last page of a queue of `len` tracks.
pub open spec fn clamp_page(page: nat, len: nat) -> nat {
    if page < num_pages(len) { page } else { (num_pages(len) - 1) as nat }
}

pub open spec fn clamp_display(d: QueueDisplay, len: nat) -> QueueDisplay {
    QueueDisplay { message_id: d.message_id, page: clamp_page(d.page as nat, len) as usize }
}

/// Every display with its cursor clamped to a queue of `len` tracks.
pub open spec fn clamp_displays(ds: Seq<QueueDisplay>, len: nat) -> Seq<QueueDisplay> {
    ds.map_values(|d: QueueDisplay| clamp_display(d, len))
}

/// Every cursor lies on a page that a queue of `len` tracks has.
pub open spec fn cursors_valid(ds: Seq<QueueDisplay>, len: nat) -> bool {
    forall|i: int| 0 <= i < ds.len() ==> (#[trigger] ds[i]).page < num_pages(len)
}

/// Keeps the displays of every message but the given one.
pub open spec fn other_message(message_id: u64) -> spec_fn(QueueDisplay) -> bool {
    |d: QueueDisplay| d.message_id != message_id
}

pub open spec fn has_display(ds: Seq<QueueDisplay>, message_id: u64) -> bool {
    exists|i: int| 0 <= i < ds.len() && (#[trigger] ds[i]).message_id == message_id
}

#[derive(Debug)]
pub struct GuildCache {
    pub queue_messages: Vec<QueueDisplay>,
    /// Distinct ids of the members who voted to skip the playing track.
    pub current_skip_votes: Vec<u64>,
}

impl GuildCache {
    pub fn new() -> (r: Self)
        ensures
            r.queue_messages@.len() == 0,
            r.current_skip_votes@.len() == 0,
    {
        GuildCache { queue_messages: Vec::new(), current_skip_votes: Vec::new() }
    }

    /// Clamps every display's cursor to a queue that now holds `len` tracks.
    pub fn clamp_pages(&mut self, len: usize)
        ensures
            final(self).queue_messages@ == clamp_displays(old(self).queue_messages@, len as nat),
            cursors_valid(final(self).queue_messages@, len as nat),
            final(self).current_skip_votes == old(self).current_skip_votes,
    {
        let n = crate::queue::calculate_num_pages(len);
        let ghost before = self.queue_messages@;
        let mut i: usize = 0;
        while i < self.queue_messages.len()
            invariant
                0 <= i <= self.queue_messages@.len(),
                self.queue_messages@.len() == before.len(),
                n == num_pages(len as nat),
                n >= 1,
                forall|j: int| 0 <= j < i ==> self.queue_messages@[j] == clamp_display(before[j], len as nat),
                forall|j: int| i <= j < before.len() ==> self.queue_messages@[j] == before[j],
                self.current_skip_votes == old(self).current_skip_votes,
            decreases self.queue_messages@.len() - i,
        {
            let d = self.queue_messages[i];
            let page = if d.page < n { d.page } else { n - 1 };
            self.queue_messages.set(i, QueueDisplay { message_id: d.message_id, page });
            i += 1;
        }
        proof {
            assert(self.queue_messages@ =~= clamp_displays(before, len as nat));
        }
    }

    /// Registers a display that opens on its first page.
    pub fn add_queue_message(&mut self, message_id: u64)
        ensures
            final(self).queue_messages@ == old(self).queue_messages@.push(
                QueueDisplay { message_id, page: 0 },
            ),
            final(self).current_skip_votes == old(self).current_skip_votes,
    {
        self.queue_messages.push(QueueDisplay { message_id, page: 0 });
    }

    /// Moves the message's display by one click on `action`, within a queue of
    /// `len` tracks; `None` when the message has no display.
    pub fn navigate(&mut self, message_id: u64, action: NavAction, len: usize) -> (r: Option<usize>)
        ensures
            r is None <==> !has_display(old(self).queue_messages@, message_id),
            r is None ==> final(self).queue_messages == old(self).queue_messages,
            r matches Some(page) ==> exists|i: int|
                0 <= i < old(self).queue_messages@.len()
                && (#[trigger] old(self).queue_messages@[i]).message_id == message_id
                && page == nav_target(old(self).queue_messages@[i].page as nat, action, len as nat)
                && final(self).queue_messages@ == old(self).queue_messages@.update(
                    i,
                    QueueDisplay { message_id, page },
                ),
            final(self).current_skip_votes == old(self).current_skip_votes,
    {
        let mut i: usize = 0;
        while i < self.queue_messages.len()
            invariant
                0 <= i <= self.queue_messages@.len(),
                self.queue_messages == old(self).queue_messages,
                self.current_skip_votes == old(self).current_skip_votes,
                forall|j: int| 0 <= j < i ==> (#[trigger] self.queue_messages@[j]).message_id != message_id,
            decreases self.queue_messages@.len() - i,
        {
            let d = self.queue_messages[i];
            if d.message_id == message_id {
                let page = navigate(d.page, action, len);
                self.queue_messages.set(i, QueueDisplay { message_id, page });
                return Some(page);
            }
            i += 1;
        }
        None
    }

    /// Deregisters every display of the message.
    pub fn forget_queue_message(&mut self, message_id: u64)
        ensures
            final(self).queue_messages@ == old(self).queue_messages@.filter(other_message(message_id)),
            final(self).current_skip_votes == old(self).current_skip_votes,
    {
        let mut kept: Vec<QueueDisplay> = Vec::new();
        let mut i: usize = 0;
        while i < self.queue_messages.len()
            invariant
                0 <= i <= self.queue_messages@.len(),
                self.queue_messages == old(self).queue_messages,
                kept@ == self.queue_messages@.subrange(0, i as int).filter(other_message(message_id)),
            decreases self.queue_messages@.len() - i,
        {
            let d = self.queue_messages[i];
            let ghost prefix = self.queue_messages@.subrange(0, i as int);
            proof {
                assert(self.queue_messages@.subrange(0, i + 1) =~= prefix.push(d));
                prefix.lemma_filter_push(d, other_message(message_id));
            }
            if d.message_id != message_id {
                kept.push(d);
            }
            i += 1;
            proof {
                assert(self.queue_messages@.subrange(0, i as int) == prefix.push(d));
            }
        }
        proof {
            assert(self.queue_messages@.subrange(0, i as int) =~= self.queue_messages@);
        }
        self.queue_messages = kept;
    }

    pub fn forget_skip_votes(&mut self)
        ensures
            final(self).current_skip_votes@.len() == 0,
            final(self).queue_messages == old(self).queue_messages,
    {
        self.current_skip_votes = Vec::new();
    }
}

} // verus!
