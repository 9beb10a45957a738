//! The per-guild aggregate and the store that holds one for every guild.

use vstd::prelude::*;
use std::collections::HashMap;
use crate::cache::GuildCache;
use crate::settings::GuildSettings;
use crate::stored_queue::GuildStoredQueue;

verus! {

#[derive(Debug)]
pub struct GuildPlaybackState {
    pub settings: GuildSettings,
    pub stored_queue: GuildStoredQueue,
    pub cache: GuildCache,
}

/// The aggregate a guild starts with.
pub open spec fn is_fresh(s: GuildPlaybackState, guild_id: u64) -> bool {
    &&& s.settings.guild_id == guild_id
    &&& !s.settings.autopause
    &&& !s.settings.track_loop
    &&& !s.settings.queue_loop
    &&& s.settings.allowed_domains@.len() == 0
    &&& s.settings.banned_domains@.len() == 0
    &&& s.stored_queue.continue_play
    &&& s.stored_queue.queue@.len() == 0
    &&& s.cache.queue_messages@.len() == 0
    &&& s.cache.current_skip_votes@.len() == 0
}

impl GuildPlaybackState {
    pub fn new(guild_id: u64) -> (r: Self)
        ensures
            is_fresh(r, guild_id),
    {
        GuildPlaybackState {
            settings: GuildSettings::new(guild_id),
            stored_queue: GuildStoredQueue::new(),
            cache: GuildCache::new(),
        }
    }
}

/// Every guild's aggregate, keyed by guild id. Callers hold it behind one
/// lock, and take a guild's aggregate out for the length of one operation.
#[derive(Debug)]
pub struct GuildStateStore {
    pub guilds: HashMap<u64, GuildPlaybackState>,
}

impl GuildStateStore {
    pub fn new() -> (r: Self)
        ensures
            r.guilds@ == Map::<u64, GuildPlaybackState>::empty(),
    {
        GuildStateStore { guilds: HashMap::new() }
    }

    /// Takes the guild's aggregate out of the store; a guild seen for the
    /// first time gets a fresh one.
    pub fn take(&mut self, guild_id: u64) -> (r: GuildPlaybackState)
        ensures
            final(self).guilds@ == old(self).guilds@.remove(guild_id),
            old(self).guilds@.contains_key(guild_id) ==> r == old(self).guilds@[guild_id],
            !old(self).guilds@.contains_key(guild_id) ==> is_fresh(r, guild_id),
    {
        broadcast use vstd::std_specs::hash::group_hash_axioms;
        match self.guilds.remove(&guild_id) {
            Some(s) => s,
            None => {
                proof {
                    assert(self.guilds@ =~= old(self).guilds@.remove(guild_id));
                }
                GuildPlaybackState::new(guild_id)
            },
        }
    }

    /// Puts a guild's aggregate (back) into the store.
    pub fn put(&mut self, guild_id: u64, state: GuildPlaybackState)
        ensures
            final(self).guilds@ == old(self).guilds@.insert(guild_id, state),
    {
        broadcast use vstd::std_specs::hash::group_hash_axioms;
        self.guilds.insert(guild_id, state);
    }

    /// The guild's aggregate, if the store holds one.
    pub fn get(&self, guild_id: u64) -> (r: Option<&GuildPlaybackState>)
        ensures
            r is Some <==> self.guilds@.contains_key(guild_id),
            r is Some ==> *r->Some_0 == self.guilds@[guild_id],
    {
        broadcast use vstd::std_specs::hash::group_hash_axioms;
        self.guilds.get(&guild_id)
    }
}

} // verus!
