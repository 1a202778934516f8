//! Events on the channels of a guild.

use std::collections::{HashMap, VecDeque};
use vstd::prelude::*;

use crate::cache::{lemma_view_remove, Cache, CacheView};
use crate::guild::GuildView;
use crate::model::{clone_opt_string, Channel, ChannelId, GuildId, Message};

verus! {

broadcast use vstd::std_specs::hash::group_hash_axioms;

/// A channel was created.
#[derive(Debug)]
pub struct ChannelCreateEvent {
    pub channel: Channel,
}

/// A channel changed.
#[derive(Debug)]
pub struct ChannelUpdateEvent {
    pub channel: Channel,
}

/// A channel was deleted.
#[derive(Debug)]
pub struct ChannelDeleteEvent {
    pub channel: Channel,
}

/// A message was pinned or unpinned in a channel.
#[derive(Debug)]
pub struct ChannelPinsUpdateEvent {
    pub guild_id: Option<GuildId>,
    pub channel_id: ChannelId,
    pub last_pin_timestamp: Option<i64>,
}

/// The cache after a channel is created or replaced: it is indexed under its guild,
/// and stored in that guild if the guild is cached.
pub open spec fn upsert_channel(c: CacheView, ch: Channel) -> CacheView {
    let indexed = CacheView { channels: c.channels.insert(ch.id, ch.guild_id), ..c };
    if c.guilds.contains_key(ch.guild_id) {
        let g = c.guilds[ch.guild_id];
        indexed.with_guild(GuildView { channels: g.channels.insert(ch.id, ch), ..g })
    } else {
        indexed
    }
}

/// The channel that a create or update replaces, if its guild held it.
pub open spec fn replaced_channel(c: CacheView, ch: Channel) -> Option<Channel> {
    if c.guilds.contains_key(ch.guild_id) && c.guilds[ch.guild_id].channels.contains_key(ch.id) {
        Some(c.guilds[ch.guild_id].channels[ch.id])
    } else {
        None
    }
}

/// The cache after a channel is deleted: gone from its guild, from the index,
/// and its message table and queue with it.
pub open spec fn delete_channel(c: CacheView, id: ChannelId, guild_id: GuildId) -> CacheView {
    let removed = CacheView {
        channels: c.channels.remove(id),
        messages: c.messages.remove(id),
        message_queue: c.message_queue.remove(id),
        ..c
    };
    if c.guilds.contains_key(guild_id) {
        let g = c.guilds[guild_id];
        removed.with_guild(GuildView { channels: g.channels.remove(id), ..g })
    } else {
        removed
    }
}

/// The cache after a channel's last pin time is patched.
pub open spec fn patch_pins(
    c: CacheView,
    guild_id: Option<GuildId>,
    id: ChannelId,
    ts: Option<i64>,
) -> CacheView {
    match guild_id {
        Some(gid) => if c.guilds.contains_key(gid) && c.guilds[gid].channels.contains_key(id) {
            let g = c.guilds[gid];
            let ch = g.channels[id];
            c.with_guild(
                GuildView {
                    channels: g.channels.insert(id, Channel { last_pin_timestamp: ts, ..ch }),
                    ..g
                },
            )
        } else {
            c
        },
        None => c,
    }
}

/// A voice channel's status text changed.
#[derive(Debug)]
pub struct VoiceChannelStatusUpdateEvent {
    pub guild_id: GuildId,
    pub id: ChannelId,
    pub status: Option<String>,
}

/// The cache after a voice channel's status is patched.
pub open spec fn patch_status(
    c: CacheView,
    gid: GuildId,
    id: ChannelId,
    status: Option<String>,
) -> CacheView {
    if c.guilds.contains_key(gid) && c.guilds[gid].channels.contains_key(id) {
        let g = c.guilds[gid];
        let ch = g.channels[id];
        c.with_guild(
            GuildView { channels: g.channels.insert(id, Channel { status: status, ..ch }), ..g },
        )
    } else {
        c
    }
}

/// Stores a channel in its guild and indexes it.
fn store_channel(cache: &mut Cache, channel: &Channel) -> (r: Option<Channel>)
    requires
        old(cache).wf(),
    ensures
        final(cache).wf(),
        final(cache)@ == upsert_channel(old(cache)@, *channel),
        r == replaced_channel(old(cache)@, *channel),
{
    let ghost c0 = cache@;
    let old_channel = match cache.take_guild(channel.guild_id) {
        Some(mut g) => {
            let r = g.channels.insert(channel.id, channel.clone());
            cache.put_guild(g);
            r
        },
        None => None,
    };
    cache.channels.insert(channel.id, channel.guild_id);
    proof {
        let c1 = upsert_channel(c0, *channel);
        assert(cache@.guilds =~= c1.guilds);
        assert(cache@.channels =~= c1.channels);
    }
    old_channel
}

impl ChannelCreateEvent {
    /// Stores the channel; returns the one it replaced.
    pub fn update(&mut self, cache: &mut Cache) -> (r: Option<Channel>)
        requires
            old(cache).wf(),
        ensures
            final(cache).wf(),
            final(cache)@ == upsert_channel(old(cache)@, old(self).channel),
            r == replaced_channel(old(cache)@, old(self).channel),
            *final(self) == *old(self),
    {
        store_channel(cache, &self.channel)
    }
}

impl ChannelUpdateEvent {
    /// Stores the channel; returns the one it replaced.
    pub fn update(&mut self, cache: &mut Cache) -> (r: Option<Channel>)
        requires
            old(cache).wf(),
        ensures
            final(cache).wf(),
            final(cache)@ == upsert_channel(old(cache)@, old(self).channel),
            r == replaced_channel(old(cache)@, old(self).channel),
            *final(self) == *old(self),
    {
        store_channel(cache, &self.channel)
    }
}

impl ChannelDeleteEvent {
    /// Removes the channel and its cached messages; returns those messages, oldest first.
    pub fn update(&mut self, cache: &mut Cache) -> (r: Option<Vec<Message>>)
        requires
            old(cache).wf(),
        ensures
            final(cache).wf(),
            final(cache)@ == delete_channel(
                old(cache)@,
                old(self).channel.id,
                old(self).channel.guild_id,
            ),
            *final(self) == *old(self),
            match r {
                Some(v) => {
                    let q = old(cache)@.message_queue[old(self).channel.id];
                    let t = old(cache)@.messages[old(self).channel.id];
                    &&& old(cache)@.messages.contains_key(old(self).channel.id)
                    &&& v@.len() == q.len()
                    &&& forall|i: int| 0 <= i < q.len() ==> v@[i] == t[q[i]]
                },
                None => !old(cache)@.messages.contains_key(old(self).channel.id),
            },
    {
        let id = self.channel.id;
        let gid = self.channel.guild_id;
        let ghost c0 = cache@;
        cache.channels.remove(&id);
        match cache.take_guild(gid) {
            Some(mut g) => {
                g.channels.remove(&id);
                cache.put_guild(g);
            },
            None => {},
        }
        let ghost t_all = cache.messages@;
        let ghost q_all = cache.message_queue@;
        let table = cache.messages.remove(&id);
        let queue = cache.message_queue.remove(&id);
        proof {
            lemma_view_remove(t_all, |t: HashMap<u64, Message>| t@, id);
            lemma_view_remove(q_all, |q: VecDeque<u64>| q@, id);
            let c2 = delete_channel(c0, id, gid);
            assert(cache@.guilds =~= c2.guilds);
            assert(cache@.channels =~= c2.channels);
            assert(cache@.messages =~= c2.messages);
            assert(cache@.message_queue =~= c2.message_queue);
            assert forall|c: ChannelId| #[trigger]
                cache@.message_queue.contains_key(c) implies crate::cache::queue_matches(
                cache@.message_queue[c],
                cache@.messages[c],
                cache@.max_messages,
            ) by {
                assert(c0.message_queue.contains_key(c));
            }
        }
        match (table, queue) {
            (Some(mut t), Some(q)) => {
                proof {
                    assert(c0.message_queue.contains_key(id));
                    assert(q@ == c0.message_queue[id]);
                    assert(t@ == c0.messages[id]);
                    assert forall|i: int| 0 <= i < q@.len() implies t@.contains_key(
                        #[trigger] q@[i],
                    ) by {
                        assert(q@.to_set().contains(q@[i]));
                    }
                }
                Some(drain_in_order(&mut t, &q))
            },
            _ => None,
        }
    }
}

impl ChannelPinsUpdateEvent {
    /// Patches the channel's last pin time; nothing else changes.
    pub fn update(&mut self, cache: &mut Cache) -> (r: Option<()>)
        requires
            old(cache).wf(),
        ensures
            final(cache).wf(),
            final(cache)@ == patch_pins(
                old(cache)@,
                old(self).guild_id,
                old(self).channel_id,
                old(self).last_pin_timestamp,
            ),
            r.is_none(),
            *final(self) == *old(self),
    {
        if let Some(gid) = self.guild_id {
            if let Some(mut g) = cache.take_guild(gid) {
                let ghost g0 = g@;
                if let Some(mut ch) = g.channels.remove(&self.channel_id) {
                    ch.last_pin_timestamp = self.last_pin_timestamp;
                    g.channels.insert(self.channel_id, ch);
                    proof {
                        assert(g@.channels =~= g0.channels.insert(self.channel_id, ch));
                    }
                } else {
                    proof {
                        assert(g@.channels =~= g0.channels);
                    }
                }
                cache.put_guild(g);
                proof {
                    let c = patch_pins(old(cache)@, self.guild_id, self.channel_id, self.last_pin_timestamp);
                    assert(cache@.guilds =~= c.guilds);
                }
            }
        }
        None
    }
}

impl VoiceChannelStatusUpdateEvent {
    /// Replaces the channel's status text; returns the previous text.
    pub fn update(&mut self, cache: &mut Cache) -> (r: Option<String>)
        requires
            old(cache).wf(),
        ensures
            final(cache).wf(),
            final(cache)@ == patch_status(old(cache)@, old(self).guild_id, old(self).id, old(self).status),
            *final(self) == *old(self),
            r == (if old(cache)@.guilds.contains_key(old(self).guild_id)
                && old(cache)@.guilds[old(self).guild_id].channels.contains_key(old(self).id) {
                old(cache)@.guilds[old(self).guild_id].channels[old(self).id].status
            } else {
                None
            }),
    {
        let mut g = match cache.take_guild(self.guild_id) {
            Some(g) => g,
            None => {
                return None;
            },
        };
        let ghost g0 = g@;
        let r = if let Some(mut ch) = g.channels.remove(&self.id) {
            let old_status = clone_opt_string(&ch.status);
            ch.status = clone_opt_string(&self.status);
            g.channels.insert(self.id, ch);
            proof {
                assert(g@.channels =~= g0.channels.insert(self.id, ch));
            }
            old_status
        } else {
            proof {
                assert(g@.channels =~= g0.channels);
            }
            None
        };
        cache.put_guild(g);
        proof {
            let c = patch_status(old(cache)@, self.guild_id, self.id, self.status);
            assert(cache@.guilds =~= c.guilds);
        }
        r
    }
}

/// Removes from `t` each id of `q` in turn; returns the removed messages in that order.
fn drain_in_order(t: &mut HashMap<u64, Message>, q: &VecDeque<u64>) -> (r: Vec<Message>)
    requires
        q@.no_duplicates(),
        forall|i: int| 0 <= i < q@.len() ==> old(t)@.contains_key(#[trigger] q@[i]),
    ensures
        r@.len() == q@.len(),
        forall|i: int| 0 <= i < q@.len() ==> r@[i] == old(t)@[q@[i]],
{
    let ghost t0 = t@;
    let mut r: Vec<Message> = Vec::new();
    let mut i: usize = 0;
    while i < q.len()
        invariant
            i <= q@.len(),
            q@.no_duplicates(),
            forall|j: int| 0 <= j < q@.len() ==> t0.contains_key(#[trigger] q@[j]),
            r@.len() == i,
            forall|j: int| 0 <= j < i ==> r@[j] == t0[q@[j]],
            forall|j: int| i <= j < q@.len() ==> t@.contains_key(#[trigger] q@[j]) && t@[q@[j]]
                == t0[q@[j]],
        decreases q@.len() - i,
    {
        let k = q[i];
        let m = t.remove(&k);
        match m {
            Some(m) => {
                r.push(m);
            },
            None => {
                assert(false);
            },
        }
        proof {
            assert forall|j: int| i + 1 <= j < q@.len() implies t@.contains_key(#[trigger] q@[j])
                && t@[q@[j]] == t0[q@[j]] by {
                assert(q@[j] != q@[i as int]);
            }
        }
        i = i + 1;
    }
    r
}

} // verus!
