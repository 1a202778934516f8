//! Threads: archivable channels that a guild keeps in a list.

use vstd::prelude::*;

use crate::cache::{Cache, CacheView};
use crate::guild::GuildView;
use crate::model::{Channel, ChannelId, GuildId};

verus! {

broadcast use vstd::std_specs::hash::group_hash_axioms;

/// A thread was created.
#[derive(Debug)]
pub struct ThreadCreateEvent {
    pub thread: Channel,
}

/// A thread changed.
#[derive(Debug)]
pub struct ThreadUpdateEvent {
    pub thread: Channel,
}

/// A thread was deleted.
#[derive(Debug)]
pub struct ThreadDeleteEvent {
    pub id: ChannelId,
    pub guild_id: GuildId,
}

/// A guild's thread list once `t` is stored: replacing the first thread with its id,
/// or added last.
pub open spec fn threads_with(s: Seq<Channel>, t: Channel) -> Seq<Channel> {
    match thread_index(s, t.id) {
        Some(i) => s.update(i, t),
        None => s.push(t),
    }
}

/// The cache after a thread is stored in its cached guild.
pub open spec fn upsert_thread(c: CacheView, t: Channel) -> CacheView {
    if c.guilds.contains_key(t.guild_id) {
        let g = c.guilds[t.guild_id];
        c.with_guild(GuildView { threads: threads_with(g.threads, t), ..g })
    } else {
        c
    }
}

/// The cache after a thread leaves its cached guild.
pub open spec fn delete_thread(c: CacheView, gid: GuildId, id: ChannelId) -> CacheView {
    if c.guilds.contains_key(gid) {
        let g = c.guilds[gid];
        match thread_index(g.threads, id) {
            Some(i) => c.with_guild(GuildView { threads: g.threads.remove(i), ..g }),
            None => c,
        }
    } else {
        c
    }
}

/// The thread stored under an id in a cached guild, if any.
pub open spec fn thread_of(c: CacheView, gid: GuildId, id: ChannelId) -> Option<Channel> {
    if c.guilds.contains_key(gid) {
        match thread_index(c.guilds[gid].threads, id) {
            Some(i) => Some(c.guilds[gid].threads[i]),
            None => None,
        }
    } else {
        None
    }
}

/// Stores a thread in its guild; returns the one it replaced.
fn store_thread(cache: &mut Cache, thread: &Channel) -> (r: Option<Channel>)
    requires
        old(cache).wf(),
    ensures
        final(cache).wf(),
        final(cache)@ == upsert_thread(old(cache)@, *thread),
        r == thread_of(old(cache)@, thread.guild_id, thread.id),
{
    let mut g = match cache.take_guild(thread.guild_id) {
        Some(g) => g,
        None => {
            return None;
        },
    };
    let r = match find_thread(&g.threads, thread.id) {
        Some(i) => {
            let mut t = thread.clone();
            g.threads.set_and_swap(i, &mut t);
            Some(t)
        },
        None => {
            g.threads.push(thread.clone());
            None
        },
    };
    cache.put_guild(g);
    proof {
        let c1 = upsert_thread(old(cache)@, *thread);
        assert(cache@.guilds =~= c1.guilds);
    }
    r
}

impl ThreadCreateEvent {
    /// Stores the thread; returns the one it replaced.
    pub fn update(&mut self, cache: &mut Cache) -> (r: Option<Channel>)
        requires
            old(cache).wf(),
        ensures
            final(cache).wf(),
            final(cache)@ == upsert_thread(old(cache)@, old(self).thread),
            r == thread_of(old(cache)@, old(self).thread.guild_id, old(self).thread.id),
            *final(self) == *old(self),
    {
        store_thread(cache, &self.thread)
    }
}

impl ThreadUpdateEvent {
    /// Stores the thread; returns the one it replaced.
    pub fn update(&mut self, cache: &mut Cache) -> (r: Option<Channel>)
        requires
            old(cache).wf(),
        ensures
            final(cache).wf(),
            final(cache)@ == upsert_thread(old(cache)@, old(self).thread),
            r == thread_of(old(cache)@, old(self).thread.guild_id, old(self).thread.id),
            *final(self) == *old(self),
    {
        store_thread(cache, &self.thread)
    }
}

impl ThreadDeleteEvent {
    /// Removes the thread from its guild; returns it.
    pub fn update(&mut self, cache: &mut Cache) -> (r: Option<Channel>)
        requires
            old(cache).wf(),
        ensures
            final(cache).wf(),
            final(cache)@ == delete_thread(old(cache)@, old(self).guild_id, old(self).id),
            r == thread_of(old(cache)@, old(self).guild_id, old(self).id),
            *final(self) == *old(self),
    {
        let mut g = match cache.take_guild(self.guild_id) {
            Some(g) => g,
            None => {
                return None;
            },
        };
        let r = match find_thread(&g.threads, self.id) {
            Some(i) => Some(g.threads.remove(i)),
            None => None,
        };
        cache.put_guild(g);
        proof {
            let c1 = delete_thread(old(cache)@, self.guild_id, self.id);
            assert(cache@.guilds =~= c1.guilds);
        }
        r
    }
}

/// `i` is the first position of a thread with id `id` in `s`.
pub open spec fn is_first_thread(s: Seq<Channel>, id: ChannelId, i: int) -> bool {
    &&& 0 <= i < s.len()
    &&& s[i].id == id
    &&& forall|j: int| 0 <= j < i ==> s[j].id != id
}

/// The first position of a thread with id `id`, if any.
pub open spec fn thread_index(s: Seq<Channel>, id: ChannelId) -> Option<int> {
    if exists|i: int| is_first_thread(s, id, i) {
        Some(choose|i: int| is_first_thread(s, id, i))
    } else {
        None
    }
}

/// There is one first position.
pub proof fn lemma_first_thread_unique(s: Seq<Channel>, id: ChannelId, i: int, j: int)
    requires
        is_first_thread(s, id, i),
        is_first_thread(s, id, j),
    ensures
        i == j,
{
    if i < j {
        assert(s[i].id != id);
    } else if j < i {
        assert(s[j].id != id);
    }
}

/// Finds the first thread with id `id`.
pub fn find_thread(threads: &Vec<Channel>, id: ChannelId) -> (r: Option<usize>)
    ensures
        match r {
            Some(i) => thread_index(threads@, id) == Some(i as int),
            None => thread_index(threads@, id).is_none(),
        },
{
    let mut i: usize = 0;
    while i < threads.len()
        invariant
            i <= threads@.len(),
            forall|j: int| 0 <= j < i ==> threads@[j].id != id,
        decreases threads@.len() - i,
    {
        if threads[i].id == id {
            proof {
                assert(is_first_thread(threads@, id, i as int));
                let k = choose|k: int| is_first_thread(threads@, id, k);
                lemma_first_thread_unique(threads@, id, i as int, k);
            }
            return Some(i);
        }
        i = i + 1;
    }
    None
}

} // verus!
