//! Events on messages, and the bounded per-channel message history.

use std::collections::{HashMap, VecDeque};
use vstd::prelude::*;

use crate::cache::{lemma_view_insert, lemma_view_remove, queue_matches, Cache, CacheView};
use crate::guild::GuildView;
use crate::model::{Channel, ChannelId, Message, MessageId, User};
use crate::threads::{find_thread, thread_index};

verus! {

broadcast use vstd::std_specs::hash::group_hash_axioms;

/// A message was posted.
#[derive(Debug)]
pub struct MessageCreateEvent {
    pub message: Message,
}

/// The id that a channel names as its newest message once `m` arrives: `m`, unless
/// the channel's newest message is cached and is not older than `m`.
pub open spec fn newest_after(c: CacheView, ch: Channel, m: Message) -> Option<MessageId> {
    match ch.last_message_id {
        Some(lid) => if c.messages.contains_key(ch.id) && c.messages[ch.id].contains_key(lid) {
            if m.timestamp > c.messages[ch.id][lid].timestamp {
                Some(m.id)
            } else {
                Some(lid)
            }
        } else {
            Some(m.id)
        },
        None => Some(m.id),
    }
}

/// The cache after the channel (or thread) of `m` has noted it as its newest message.
pub open spec fn note_newest(c: CacheView, m: Message) -> CacheView {
    match m.guild_id {
        Some(gid) => if c.guilds.contains_key(gid) {
            let g = c.guilds[gid];
            if g.channels.contains_key(m.channel_id) {
                let ch = g.channels[m.channel_id];
                c.with_guild(
                    GuildView {
                        channels: g.channels.insert(
                            m.channel_id,
                            Channel { last_message_id: newest_after(c, ch, m), ..ch },
                        ),
                        ..g
                    },
                )
            } else {
                match thread_index(g.threads, m.channel_id) {
                    Some(i) => {
                        let th = g.threads[i];
                        c.with_guild(
                            GuildView {
                                threads: g.threads.update(
                                    i,
                                    Channel { last_message_id: newest_after(c, th, m), ..th },
                                ),
                                ..g
                            },
                        )
                    },
                    None => c,
                }
            }
        } else {
            c
        },
        None => c,
    }
}

/// The message table of a channel, empty if it has none.
pub open spec fn table_of(c: CacheView, id: ChannelId) -> Map<MessageId, Message> {
    if c.messages.contains_key(id) {
        c.messages[id]
    } else {
        Map::empty()
    }
}

/// The eviction queue of a channel, empty if it has none.
pub open spec fn queue_of(c: CacheView, id: ChannelId) -> Seq<MessageId> {
    if c.message_queue.contains_key(id) {
        c.message_queue[id]
    } else {
        Seq::empty()
    }
}

/// The cache after `m` is added to its channel's history: nothing is kept when the
/// cap is 0; a message already cached is replaced in place; otherwise, when the
/// history is full, its oldest message leaves first.
pub open spec fn store_message(c: CacheView, m: Message) -> CacheView {
    let cid = m.channel_id;
    let t = table_of(c, cid);
    let q = queue_of(c, cid);
    if c.max_messages == 0 {
        c
    } else if t.contains_key(m.id) {
        CacheView {
            messages: c.messages.insert(cid, t.insert(m.id, m)),
            message_queue: c.message_queue.insert(cid, q),
            ..c
        }
    } else if q.len() == c.max_messages {
        CacheView {
            messages: c.messages.insert(cid, t.remove(q[0]).insert(m.id, m)),
            message_queue: c.message_queue.insert(cid, q.drop_first().push(m.id)),
            ..c
        }
    } else {
        CacheView {
            messages: c.messages.insert(cid, t.insert(m.id, m)),
            message_queue: c.message_queue.insert(cid, q.push(m.id)),
            ..c
        }
    }
}

/// The message that adding `m` evicts: the oldest of a full history.
pub open spec fn evicted_by(c: CacheView, m: Message) -> Option<Message> {
    let t = table_of(c, m.channel_id);
    let q = queue_of(c, m.channel_id);
    if c.max_messages != 0 && !t.contains_key(m.id) && q.len() == c.max_messages {
        Some(t[q[0]])
    } else {
        None
    }
}

/// A message was edited; only the fields sent are set.
#[derive(Debug)]
pub struct MessageUpdateEvent {
    pub id: MessageId,
    pub channel_id: ChannelId,
    pub author: Option<User>,
    pub content: Option<String>,
    pub edited_timestamp: Option<i64>,
    pub pinned: Option<bool>,
    pub tts: Option<bool>,
}

/// A message was deleted.
#[derive(Debug)]
pub struct MessageDeleteEvent {
    pub channel_id: ChannelId,
    pub message_id: MessageId,
}

/// Several messages of one channel were deleted.
#[derive(Debug)]
pub struct MessageDeleteBulkEvent {
    pub channel_id: ChannelId,
    pub ids: Vec<MessageId>,
}

/// A message with the fields that an edit sends set, and the others kept.
pub open spec fn patched_message(m: Message, e: MessageUpdateEvent) -> Message {
    Message {
        author: match e.author {
            Some(a) => a,
            None => m.author,
        },
        content: match e.content {
            Some(c) => c,
            None => m.content,
        },
        edited_timestamp: match e.edited_timestamp {
            Some(t) => Some(t),
            None => m.edited_timestamp,
        },
        pinned: match e.pinned {
            Some(p) => p,
            None => m.pinned,
        },
        tts: match e.tts {
            Some(t) => t,
            None => m.tts,
        },
        ..m
    }
}

/// The cache after an edit of a cached message; unchanged if it is not cached.
pub open spec fn edit_message(c: CacheView, e: MessageUpdateEvent) -> CacheView {
    if c.messages.contains_key(e.channel_id) && c.messages[e.channel_id].contains_key(e.id) {
        let t = c.messages[e.channel_id];
        CacheView {
            messages: c.messages.insert(e.channel_id, t.insert(e.id, patched_message(t[e.id], e))),
            ..c
        }
    } else {
        c
    }
}

/// The cache after a message leaves its channel's history, table and queue alike.
pub open spec fn delete_message(c: CacheView, cid: ChannelId, id: MessageId) -> CacheView {
    if c.messages.contains_key(cid) && c.messages[cid].contains_key(id) {
        let q = c.message_queue[cid];
        CacheView {
            messages: c.messages.insert(cid, c.messages[cid].remove(id)),
            message_queue: c.message_queue.insert(cid, q.remove(q.index_of(id))),
            ..c
        }
    } else {
        c
    }
}

/// The cache after each id of `ids` is deleted in turn.
pub open spec fn delete_messages(c: CacheView, cid: ChannelId, ids: Seq<MessageId>) -> CacheView
    decreases ids.len(),
{
    if ids.len() == 0 {
        c
    } else {
        delete_message(delete_messages(c, cid, ids.drop_last()), cid, ids.last())
    }
}

/// Sets a channel's newest message id for `m`, reading the cached history.
fn update_channel_last_message_id(message: &Message, channel: &mut Channel, cache: &Cache)
    requires
        cache.wf(),
    ensures
        *final(channel) == (Channel {
            last_message_id: newest_after(cache@, *old(channel), *message),
            ..*old(channel)
        }),
{
    match channel.last_message_id {
        Some(lid) => {
            let newest = cache.message(channel.id, lid);
            match newest {
                Some(newest) => {
                    if message.timestamp > newest.timestamp {
                        channel.last_message_id = Some(message.id);
                    }
                },
                None => {
                    channel.last_message_id = Some(message.id);
                },
            }
        },
        None => {
            channel.last_message_id = Some(message.id);
        },
    }
}

/// A sequence with `x` added last holds what it held, and `x`.
pub proof fn lemma_push_to_set(q: Seq<MessageId>, x: MessageId)
    ensures
        q.push(x).to_set() == q.to_set().insert(x),
{
    assert forall|y: MessageId| #[trigger] q.push(x).to_set().contains(y) <==> q.to_set().insert(
        x,
    ).contains(y) by {
        if q.push(x).to_set().contains(y) {
            let i = choose|i: int| 0 <= i < q.push(x).len() && q.push(x)[i] == y;
            if i < q.len() {
                assert(q[i] == y);
            }
        }
        if q.to_set().contains(y) {
            let i = choose|i: int| 0 <= i < q.len() && q[i] == y;
            assert(q.push(x)[i] == y);
        }
        if y == x {
            assert(q.push(x)[q.len() as int] == y);
        }
    }
    assert(q.push(x).to_set() =~= q.to_set().insert(x));
}

/// Without its first item, a sequence of distinct items holds the rest.
pub proof fn lemma_drop_first_to_set(q: Seq<MessageId>)
    requires
        q.len() > 0,
        q.no_duplicates(),
    ensures
        q.drop_first().to_set() == q.to_set().remove(q[0]),
        q.drop_first().no_duplicates(),
{
    let d = q.drop_first();
    assert forall|y: MessageId| #[trigger] d.to_set().contains(y) <==> q.to_set().remove(
        q[0],
    ).contains(y) by {
        if d.to_set().contains(y) {
            let i = choose|i: int| 0 <= i < d.len() && d[i] == y;
            assert(q[i + 1] == y);
            assert(q[0] != q[i + 1]);
        }
        if q.to_set().remove(q[0]).contains(y) {
            let i = choose|i: int| 0 <= i < q.len() && q[i] == y;
            assert(i != 0);
            assert(d[i - 1] == y);
        }
    }
    assert(d.to_set() =~= q.to_set().remove(q[0]));
    assert forall|i: int, j: int| 0 <= i < d.len() && 0 <= j < d.len() && i != j implies d[i]
        != d[j] by {
        assert(d[i] == q[i + 1] && d[j] == q[j + 1]);
    }
}

impl MessageCreateEvent {
    /// Notes the message as its channel's newest where it is, and adds it to the
    /// channel's history; returns the message evicted to stay within the cap.
    pub fn update(&mut self, cache: &mut Cache) -> (r: Option<Message>)
        requires
            old(cache).wf(),
        ensures
            final(cache).wf(),
            final(cache)@ == store_message(note_newest(old(cache)@, old(self).message), old(self).message),
            r == evicted_by(old(cache)@, old(self).message),
            *final(self) == *old(self),
    {
        cache.note_newest(&self.message);
        cache.store_message(&self.message)
    }
}

impl MessageUpdateEvent {
    /// Patches the cached message; returns it as it was before.
    pub fn update(&mut self, cache: &mut Cache) -> (r: Option<Message>)
        requires
            old(cache).wf(),
        ensures
            final(cache).wf(),
            final(cache)@ == edit_message(old(cache)@, *old(self)),
            *final(self) == *old(self),
            r == (if old(cache)@.messages.contains_key(old(self).channel_id)
                && old(cache)@.messages[old(self).channel_id].contains_key(old(self).id) {
                Some(old(cache)@.messages[old(self).channel_id][old(self).id])
            } else {
                None
            }),
    {
        let ghost c0 = cache@;
        let ghost t_all = cache.messages@;
        let mut t = match cache.messages.remove(&self.channel_id) {
            Some(t) => t,
            None => {
                proof {
                    assert(cache.messages@ =~= t_all);
                }
                return None;
            },
        };
        let ghost t0 = t@;
        proof {
            assert(c0.messages[self.channel_id] == t0);
        }
        let r = match t.remove(&self.id) {
            Some(mut m) => {
                let old_message = m.clone();
                self.apply_to_message(&mut m);
                t.insert(self.id, m);
                proof {
                    assert(t@ =~= t0.insert(self.id, patched_message(t0[self.id], *self)));
                }
                Some(old_message)
            },
            None => None,
        };
        proof {
            lemma_view_remove(t_all, |t: HashMap<u64, Message>| t@, self.channel_id);
            if r.is_none() {
                assert(t@ =~= t0);
            } else {
                assert(t@.dom() =~= t0.dom());
            }
        }
        let ghost t_mid = cache.messages@;
        proof {
            lemma_view_insert(t_mid, |t: HashMap<u64, Message>| t@, self.channel_id, t);
        }
        cache.messages.insert(self.channel_id, t);
        proof {
            let c1 = edit_message(c0, *self);
            assert(cache@.messages =~= c1.messages);
            assert forall|c: ChannelId| #[trigger]
                cache@.message_queue.contains_key(c) implies queue_matches(
                cache@.message_queue[c],
                cache@.messages[c],
                cache@.max_messages,
            ) by {
                assert(c0.message_queue.contains_key(c));
            }
        }
        r
    }

    /// Sets on `m` the fields that this edit sends.
    pub fn apply_to_message(&self, m: &mut Message)
        ensures
            *final(m) == patched_message(*old(m), *self),
    {
        if let Some(a) = &self.author {
            m.author = a.clone();
        }
        if let Some(c) = &self.content {
            m.content = c.clone();
        }
        if let Some(t) = self.edited_timestamp {
            m.edited_timestamp = Some(t);
        }
        if let Some(p) = self.pinned {
            m.pinned = p;
        }
        if let Some(t) = self.tts {
            m.tts = t;
        }
    }
}

impl MessageDeleteEvent {
    /// Removes the message from its channel's history; returns it.
    pub fn update(&mut self, cache: &mut Cache) -> (r: Option<Message>)
        requires
            old(cache).wf(),
        ensures
            final(cache).wf(),
            final(cache)@ == delete_message(old(cache)@, old(self).channel_id, old(self).message_id),
            *final(self) == *old(self),
            r == (if old(cache)@.messages.contains_key(old(self).channel_id)
                && old(cache)@.messages[old(self).channel_id].contains_key(old(self).message_id) {
                Some(old(cache)@.messages[old(self).channel_id][old(self).message_id])
            } else {
                None
            }),
    {
        cache.remove_message(self.channel_id, self.message_id)
    }
}

impl MessageDeleteBulkEvent {
    /// Removes each message from its channel's history.
    pub fn update(&mut self, cache: &mut Cache) -> (r: Option<()>)
        requires
            old(cache).wf(),
        ensures
            final(cache).wf(),
            final(cache)@ == delete_messages(old(cache)@, old(self).channel_id, old(self).ids@),
            *final(self) == *old(self),
            r.is_none(),
    {
        let ghost c0 = cache@;
        let mut i: usize = 0;
        while i < self.ids.len()
            invariant
                i <= self.ids@.len(),
                cache.wf(),
                cache@ == delete_messages(c0, self.channel_id, self.ids@.subrange(0, i as int)),
            decreases self.ids@.len() - i,
        {
            cache.remove_message(self.channel_id, self.ids[i]);
            proof {
                let s = self.ids@.subrange(0, i + 1);
                assert(s.drop_last() =~= self.ids@.subrange(0, i as int));
            }
            i = i + 1;
        }
        proof {
            assert(self.ids@.subrange(0, i as int) =~= self.ids@);
        }
        None
    }
}

impl Cache {
    /// Removes one message from its channel's table and queue.
    fn remove_message(&mut self, cid: ChannelId, id: MessageId) -> (r: Option<Message>)
        requires
            old(self).wf(),
        ensures
            final(self).wf(),
            final(self)@ == delete_message(old(self)@, cid, id),
            r == (if old(self)@.messages.contains_key(cid) && old(self)@.messages[cid].contains_key(id) {
                Some(old(self)@.messages[cid][id])
            } else {
                None
            }),
    {
        let ghost c0 = self@;
        let in_table = match self.messages.get(&cid) {
            Some(t) => t.contains_key(&id),
            None => false,
        };
        if !in_table {
            return None;
        }
        let ghost t_all = self.messages@;
        let ghost q_all = self.message_queue@;
        proof {
            assert(c0.message_queue.contains_key(cid));
        }
        let mut t = match self.messages.remove(&cid) {
            Some(t) => t,
            None => HashMap::new(),
        };
        let mut q = match self.message_queue.remove(&cid) {
            Some(q) => q,
            None => VecDeque::new(),
        };
        let ghost t0 = t@;
        let ghost q0 = q@;
        proof {
            assert(queue_matches(q0, t0, c0.max_messages));
            assert(q0.to_set().contains(id));
        }
        let r = t.remove(&id);
        let pos = position_of(&q, id);
        proof {
            assert(q0.contains(id));
            let k = q0.index_of(id);
            assert(q0[k] == id);
            assert(k == pos as int) by {
                if k != pos as int {
                    assert(q0[k] == q0[pos as int]);
                }
            };
        }
        q.remove(pos);
        proof {
            let k = pos as int;
            assert(q@ == q0.remove(k));
            assert(q@.no_duplicates()) by {
                assert forall|i: int, j: int|
                    0 <= i < q@.len() && 0 <= j < q@.len() && i != j implies q@[i] != q@[j] by {
                    let i0 = if i < k { i } else { i + 1 };
                    let j0 = if j < k { j } else { j + 1 };
                    assert(q@[i] == q0[i0] && q@[j] == q0[j0]);
                }
            };
            assert forall|x: MessageId| #[trigger] q@.to_set().contains(x) <==> t@.dom().contains(x) by {
                if q@.to_set().contains(x) {
                    let i = choose|i: int| 0 <= i < q@.len() && q@[i] == x;
                    let i0 = if i < k { i } else { i + 1 };
                    assert(q0[i0] == x);
                    assert(q0.to_set().contains(x));
                    assert(i0 != k);
                }
                if t@.dom().contains(x) {
                    assert(q0.to_set().contains(x));
                    let i = choose|i: int| 0 <= i < q0.len() && q0[i] == x;
                    assert(i != k);
                    let i1 = if i < k { i } else { i - 1 };
                    assert(q@[i1] == x);
                }
            }
            assert(q@.to_set() =~= t@.dom());
            lemma_view_remove(t_all, |t: HashMap<u64, Message>| t@, cid);
            lemma_view_remove(q_all, |q: VecDeque<u64>| q@, cid);
        }
        let ghost t_mid = self.messages@;
        let ghost q_mid = self.message_queue@;
        proof {
            lemma_view_insert(t_mid, |t: HashMap<u64, Message>| t@, cid, t);
            lemma_view_insert(q_mid, |q: VecDeque<u64>| q@, cid, q);
        }
        self.messages.insert(cid, t);
        self.message_queue.insert(cid, q);
        proof {
            let c1 = delete_message(c0, cid, id);
            assert(self@.messages =~= c1.messages);
            assert(self@.message_queue =~= c1.message_queue);
            assert forall|c: ChannelId| #[trigger]
                self@.message_queue.contains_key(c) implies queue_matches(
                self@.message_queue[c],
                self@.messages[c],
                self@.max_messages,
            ) by {
                if c != cid {
                    assert(c0.message_queue.contains_key(c));
                }
            }
        }
        r
    }

    /// Adds `m` to its channel's history.
    fn store_message(&mut self, m: &Message) -> (r: Option<Message>)
        requires
            old(self).wf(),
        ensures
            final(self).wf(),
            final(self)@ == store_message(old(self)@, *m),
            r == evicted_by(old(self)@, *m),
    {
        let ghost c0 = self@;
        let max = self.settings.max_messages;
        if max == 0 {
            return None;
        }
        let cid = m.channel_id;
        let ghost t_all = self.messages@;
        let ghost q_all = self.message_queue@;
        let mut t = match self.messages.remove(&cid) {
            Some(t) => t,
            None => HashMap::new(),
        };
        let mut q = match self.message_queue.remove(&cid) {
            Some(q) => q,
            None => VecDeque::new(),
        };
        proof {
            assert(t@ == table_of(c0, cid));
            assert(q@ == queue_of(c0, cid));
            if c0.message_queue.contains_key(cid) {
                assert(queue_matches(q@, t@, max));
            } else {
                assert(q@.to_set() =~= t@.dom());
            }
        }
        let ghost t0 = t@;
        let ghost q0 = q@;
        let mut removed: Option<Message> = None;
        if t.contains_key(&m.id) {
            t.insert(m.id, m.clone());
            proof {
                assert(t@.dom() =~= t0.dom());
            }
        } else {
            if t.len() == max {
                match q.pop_front() {
                    Some(oldest) => {
                        proof {
                            assert(q0.to_set().contains(q0[0]));
                        }
                        removed = t.remove(&oldest);
                        proof {
                            lemma_drop_first_to_set(q0);
                            assert(q@ =~= q0.drop_first());
                        }
                    },
                    None => {
                        proof {
                            assert(false);
                        }
                    },
                }
            }
            let ghost q1 = q@;
            let ghost t1 = t@;
            proof {
                lemma_push_to_set(q1, m.id);
                assert(!q1.contains(m.id)) by {
                    if q1.contains(m.id) {
                        let i = choose|i: int| 0 <= i < q1.len() && q1[i] == m.id;
                        assert(q1.to_set().contains(m.id));
                    }
                };
            }
            q.push_back(m.id);
            t.insert(m.id, m.clone());
            proof {
                assert(t@.dom() =~= t1.dom().insert(m.id));
                assert(q@.no_duplicates()) by {
                    assert forall|i: int, j: int|
                        0 <= i < q@.len() && 0 <= j < q@.len() && i != j implies q@[i] != q@[j] by {
                        if i == q1.len() {
                            assert(q1.contains(q1[j]));
                        } else if j == q1.len() {
                            assert(q1.contains(q1[i]));
                        }
                    }
                };
            }
        }
        proof {
            lemma_view_remove(t_all, |t: HashMap<u64, Message>| t@, cid);
            lemma_view_remove(q_all, |q: VecDeque<u64>| q@, cid);
        }
        let ghost t_mid = self.messages@;
        let ghost q_mid = self.message_queue@;
        proof {
            lemma_view_insert(t_mid, |t: HashMap<u64, Message>| t@, cid, t);
            lemma_view_insert(q_mid, |q: VecDeque<u64>| q@, cid, q);
        }
        self.messages.insert(cid, t);
        self.message_queue.insert(cid, q);
        proof {
            let c1 = store_message(c0, *m);
            assert(self@.messages =~= c1.messages);
            assert(self@.message_queue =~= c1.message_queue);
            assert forall|c: ChannelId| #[trigger]
                self@.message_queue.contains_key(c) implies queue_matches(
                self@.message_queue[c],
                self@.messages[c],
                self@.max_messages,
            ) by {
                if c != cid {
                    assert(c0.message_queue.contains_key(c));
                }
            }
        }
        removed
    }

    /// A cached message, by channel and id.
    pub fn message(&self, channel_id: ChannelId, message_id: MessageId) -> (r: Option<&Message>)
        ensures
            match r {
                Some(m) => {
                    &&& self@.messages.contains_key(channel_id)
                    &&& self@.messages[channel_id].contains_key(message_id)
                    &&& *m == self@.messages[channel_id][message_id]
                },
                None => !(self@.messages.contains_key(channel_id)
                    && self@.messages[channel_id].contains_key(message_id)),
            },
    {
        match self.messages.get(&channel_id) {
            Some(t) => {
                proof {
                    assert(self@.messages[channel_id] == t@);
                }
                t.get(&message_id)
            },
            None => None,
        }
    }

    /// Notes `m` as the newest message of its channel or thread, where the rules say so.
    fn note_newest(&mut self, m: &Message)
        requires
            old(self).wf(),
        ensures
            final(self).wf(),
            final(self)@ == note_newest(old(self)@, *m),
    {
        let gid = match m.guild_id {
            Some(gid) => gid,
            None => {
                return;
            },
        };
        let ghost c0 = self@;
        let mut g = match self.take_guild(gid) {
            Some(g) => g,
            None => {
                return;
            },
        };
        let ghost g0 = g@;
        if let Some(mut ch) = g.channels.remove(&m.channel_id) {
            update_channel_last_message_id(m, &mut ch, self);
            g.channels.insert(m.channel_id, ch);
            proof {
                assert(g@.channels =~= g0.channels.insert(m.channel_id, ch));
            }
        } else {
            proof {
                assert(g@.channels =~= g0.channels);
            }
            match find_thread(&g.threads, m.channel_id) {
                Some(i) => {
                    let mut th = Channel {
                        id: 0,
                        guild_id: 0,
                        name: String::new(),
                        kind: 0,
                        position: 0,
                        topic: None,
                        last_message_id: None,
                        last_pin_timestamp: None,
                        status: None,
                    };
                    g.threads.set_and_swap(i, &mut th);
                    update_channel_last_message_id(m, &mut th, self);
                    g.threads.set_and_swap(i, &mut th);
                    proof {
                        assert(g@.threads =~= g0.threads.update(i as int, g@.threads[i as int]));
                    }
                },
                None => {},
            }
        }
        self.put_guild(g);
        proof {
            let c1 = note_newest(c0, *m);
            assert(self@.guilds =~= c1.guilds);
        }
    }
}

/// The position of `id` in a queue that holds it.
fn position_of(q: &VecDeque<MessageId>, id: MessageId) -> (r: usize)
    requires
        q@.contains(id),
    ensures
        r < q@.len(),
        q@[r as int] == id,
{
    let mut i: usize = 0;
    while i < q.len()
        invariant
            i <= q@.len(),
            q@.contains(id),
            forall|j: int| 0 <= j < i ==> q@[j] != id,
        decreases q@.len() - i,
    {
        if q[i] == id {
            return i;
        }
        i = i + 1;
    }
    proof {
        let k = choose|k: int| 0 <= k < q@.len() && q@[k] == id;
        assert(q@[k] != id);
    }
    0
}

} // verus!
