//! The cache: every table, its value as a mathematical object, and its invariant.

use std::collections::{HashMap, HashSet, VecDeque};
use vstd::prelude::*;
use vstd::std_specs::iter::IteratorSpec;

use crate::guild::{Guild, GuildView};
use crate::model::{
    Channel, ChannelId, CurrentUser, GuildId, Message, MessageId, ShardId, User, UserId,
};

verus! {

broadcast use vstd::std_specs::hash::group_hash_axioms;

/// How many shards exist, and which of them are connected.
#[derive(Debug)]
pub struct ShardData {
    pub total: u32,
    pub connected: HashSet<ShardId>,
}

/// The cache's fixed configuration.
#[derive(Clone, Copy, Debug)]
pub struct Settings {
    /// How many messages are kept per channel; 0 keeps none.
    pub max_messages: usize,
}

/// The mirror of remote state.
#[derive(Debug)]
pub struct Cache {
    pub(crate) guilds: HashMap<GuildId, Guild>,
    pub(crate) channels: HashMap<ChannelId, GuildId>,
    pub(crate) messages: HashMap<ChannelId, HashMap<MessageId, Message>>,
    pub(crate) message_queue: HashMap<ChannelId, VecDeque<MessageId>>,
    pub(crate) users: HashMap<UserId, User>,
    pub(crate) unavailable_guilds: HashSet<GuildId>,
    pub(crate) user: CurrentUser,
    pub(crate) shard_data: ShardData,
    pub(crate) settings: Settings,
}

/// The cache as a value.
pub ghost struct CacheView {
    pub guilds: Map<GuildId, GuildView>,
    /// The owning guild of each channel.
    pub channels: Map<ChannelId, GuildId>,
    pub messages: Map<ChannelId, Map<MessageId, Message>>,
    /// The ids of each channel's cached messages, oldest first.
    pub message_queue: Map<ChannelId, Seq<MessageId>>,
    pub users: Map<UserId, User>,
    pub unavailable_guilds: Set<GuildId>,
    pub user: CurrentUser,
    pub shard_total: u32,
    pub shards_connected: Set<ShardId>,
    pub max_messages: usize,
}

/// The guilds of a map, each as a value.
pub open spec fn guilds_view(m: Map<GuildId, Guild>) -> Map<GuildId, GuildView> {
    m.map_values(|g: Guild| g@)
}

/// The message tables of a map, each as a value.
pub open spec fn tables_view(
    m: Map<ChannelId, HashMap<MessageId, Message>>,
) -> Map<ChannelId, Map<MessageId, Message>> {
    m.map_values(|t: HashMap<MessageId, Message>| t@)
}

/// The queues of a map, each as a sequence.
pub open spec fn queues_view(m: Map<ChannelId, VecDeque<MessageId>>) -> Map<
    ChannelId,
    Seq<MessageId>,
> {
    m.map_values(|q: VecDeque<MessageId>| q@)
}

impl View for Cache {
    type V = CacheView;

    open(crate) spec fn view(&self) -> CacheView {
        CacheView {
            guilds: guilds_view(self.guilds@),
            channels: self.channels@,
            messages: tables_view(self.messages@),
            message_queue: queues_view(self.message_queue@),
            users: self.users@,
            unavailable_guilds: self.unavailable_guilds@,
            user: self.user,
            shard_total: self.shard_data.total,
            shards_connected: self.shard_data.connected@,
            max_messages: self.settings.max_messages,
        }
    }
}

impl CacheView {
    /// Each guild and user is stored under its own id; each channel's message table and eviction queue exist together, the queue
    /// holds each cached id once, oldest first, and no channel holds more than the cap.
    pub open spec fn wf(self) -> bool {
        &&& forall|g: GuildId| #[trigger] self.guilds.contains_key(g) ==> self.guilds[g].id == g
        &&& forall|u: UserId| #[trigger] self.users.contains_key(u) ==> self.users[u].id == u
        &&& self.messages.dom() == self.message_queue.dom()
        &&& forall|c: ChannelId| #[trigger]
            self.message_queue.contains_key(c) ==> queue_matches(
                self.message_queue[c],
                self.messages[c],
                self.max_messages,
            )
    }

    /// The cache with one guild replaced.
    pub open spec fn with_guild(self, g: GuildView) -> CacheView {
        CacheView { guilds: self.guilds.insert(g.id, g), ..self }
    }
}

/// A queue that lists a message table's ids once each, within the cap.
pub open spec fn queue_matches(
    q: Seq<MessageId>,
    t: Map<MessageId, Message>,
    max: usize,
) -> bool {
    &&& q.no_duplicates()
    &&& q.to_set() == t.dom()
    &&& q.len() == t.len()
    &&& q.len() <= max
    &&& forall|m: MessageId| #[trigger] t.contains_key(m) ==> t[m].id == m
}

impl Cache {
    /// The invariant of the cache's tables.
    pub open(crate) spec fn wf(&self) -> bool {
        self@.wf()
    }

    /// An empty cache that keeps at most `max_messages` messages per channel.
    pub fn new(max_messages: usize, user: CurrentUser) -> (r: Cache)
        ensures
            r.wf(),
            r@.guilds.is_empty(),
            r@.channels.is_empty(),
            r@.messages.is_empty(),
            r@.message_queue.is_empty(),
            r@.users.is_empty(),
            r@.unavailable_guilds.is_empty(),
            r@.user == user,
            r@.shard_total == 0,
            r@.shards_connected.is_empty(),
            r@.max_messages == max_messages,
    {
        let r = Cache {
            guilds: HashMap::new(),
            channels: HashMap::new(),
            messages: HashMap::new(),
            message_queue: HashMap::new(),
            users: HashMap::new(),
            unavailable_guilds: HashSet::new(),
            user,
            shard_data: ShardData { total: 0, connected: HashSet::new() },
            settings: Settings { max_messages },
        };
        assert(r@.guilds =~= Map::empty());
        assert(r@.messages =~= Map::empty());
        assert(r@.message_queue =~= Map::empty());
        r
    }
}


/// Removing a key commutes with viewing every value.
pub proof fn lemma_view_remove<V, W>(m: Map<u64, V>, f: spec_fn(V) -> W, k: u64)
    ensures
        m.remove(k).map_values(f) == m.map_values(f).remove(k),
{
    assert(m.remove(k).map_values(f) =~= m.map_values(f).remove(k));
}

/// Inserting a key commutes with viewing every value.
pub proof fn lemma_view_insert<V, W>(m: Map<u64, V>, f: spec_fn(V) -> W, k: u64, v: V)
    ensures
        m.insert(k, v).map_values(f) == m.map_values(f).insert(k, f(v)),
{
    assert(m.insert(k, v).map_values(f) =~= m.map_values(f).insert(k, f(v)));
}

/// The keys of a map, each once.
pub fn keys_of<V>(m: &HashMap<u64, V>) -> (r: Vec<u64>)
    ensures
        r@.to_set() == m@.dom(),
        r@.no_duplicates(),
{
    let mut r: Vec<u64> = Vec::new();
    for k in it: m.keys()
        invariant
            r@ == it.seq().subrange(0, it.index() as int).map_values(|k: &u64| *k),
            it.seq() == vstd::std_specs::hash::spec_keys_iter(m).remaining(),
    {
        r.push(*k);
    }
    proof {
        let s = vstd::std_specs::hash::spec_keys_iter(m).remaining();
        assert(r@ =~= s.unref());
    }
    r
}

impl Cache {
    /// A cached guild, by id.
    pub fn guild(&self, id: GuildId) -> (r: Option<&Guild>)
        ensures
            match r {
                Some(g) => self@.guilds.contains_key(id) && g@ == self@.guilds[id],
                None => !self@.guilds.contains_key(id),
            },
    {
        self.guilds.get(&id)
    }

    /// A cached channel, found through the index of owning guilds.
    pub fn channel(&self, id: ChannelId) -> (r: Option<&Channel>)
        ensures
            match r {
                Some(ch) => {
                    let gid = self@.channels[id];
                    &&& self@.channels.contains_key(id)
                    &&& self@.guilds.contains_key(gid)
                    &&& self@.guilds[gid].channels.contains_key(id)
                    &&& *ch == self@.guilds[gid].channels[id]
                },
                None => !(self@.channels.contains_key(id) && self@.guilds.contains_key(
                    self@.channels[id],
                ) && self@.guilds[self@.channels[id]].channels.contains_key(id)),
            },
    {
        match self.channels.get(&id) {
            Some(gid) => match self.guilds.get(gid) {
                Some(g) => g.channels.get(&id),
                None => None,
            },
            None => None,
        }
    }

    /// The guild that owns a channel, by the index.
    pub fn channel_guild(&self, id: ChannelId) -> (r: Option<GuildId>)
        ensures
            match r {
                Some(g) => self@.channels.contains_key(id) && g == self@.channels[id],
                None => !self@.channels.contains_key(id),
            },
    {
        match self.channels.get(&id) {
            Some(g) => Some(*g),
            None => None,
        }
    }

    /// Whether a guild is marked unavailable.
    pub fn is_unavailable(&self, id: GuildId) -> (r: bool)
        ensures
            r == self@.unavailable_guilds.contains(id),
    {
        self.unavailable_guilds.contains(&id)
    }

    /// The number of cached messages of a channel.
    pub fn message_count(&self, id: ChannelId) -> (r: usize)
        ensures
            r == (if self@.messages.contains_key(id) {
                self@.messages[id].len()
            } else {
                0
            }),
    {
        match self.messages.get(&id) {
            Some(t) => t.len(),
            None => 0,
        }
    }

    /// The ids of a channel's cached messages, oldest first.
    pub fn message_ids(&self, id: ChannelId) -> (r: Vec<MessageId>)
        ensures
            r@ == (if self@.message_queue.contains_key(id) {
                self@.message_queue[id]
            } else {
                Seq::empty()
            }),
    {
        let mut r: Vec<MessageId> = Vec::new();
        match self.message_queue.get(&id) {
            Some(q) => {
                let mut i: usize = 0;
                while i < q.len()
                    invariant
                        i <= q@.len(),
                        r@ == q@.subrange(0, i as int),
                    decreases q@.len() - i,
                {
                    r.push(q[i]);
                    i = i + 1;
                }
                proof {
                    assert(r@ =~= q@);
                }
            },
            None => {},
        }
        r
    }

    /// The logged-in user.
    pub fn current_user(&self) -> (r: &CurrentUser)
        ensures
            *r == self@.user,
    {
        &self.user
    }

    /// How many shards exist.
    pub fn shard_count(&self) -> (r: u32)
        ensures
            r == self@.shard_total,
    {
        self.shard_data.total
    }

    /// How many shards are connected.
    pub fn connected_shard_count(&self) -> (r: usize)
        ensures
            r == self@.shards_connected.len(),
    {
        self.shard_data.connected.len()
    }

    /// The cache's configuration.
    pub fn settings(&self) -> (r: Settings)
        ensures
            r.max_messages == self@.max_messages,
    {
        self.settings
    }

    /// Takes a guild out of the table, to be put back with `put_guild`.
    pub(crate) fn take_guild(&mut self, id: GuildId) -> (r: Option<Guild>)
        requires
            old(self).wf(),
        ensures
            final(self).wf(),
            match r {
                Some(g) => {
                    &&& old(self)@.guilds.contains_key(id)
                    &&& g@ == old(self)@.guilds[id]
                    &&& g.id == id
                    &&& final(self)@ == (CacheView {
                        guilds: old(self)@.guilds.remove(id),
                        ..old(self)@
                    })
                },
                None => {
                    &&& !old(self)@.guilds.contains_key(id)
                    &&& final(self)@ == old(self)@
                },
            },
    {
        let r = self.guilds.remove(&id);
        proof {
            lemma_view_remove(old(self).guilds@, |g: Guild| g@, id);
            if r.is_none() {
                assert(self.guilds@ =~= old(self).guilds@);
            }
        }
        r
    }

    /// Puts a guild into the table under its own id.
    pub(crate) fn put_guild(&mut self, g: Guild)
        requires
            old(self).wf(),
        ensures
            final(self).wf(),
            final(self)@ == old(self)@.with_guild(g@),
    {
        proof {
            lemma_view_insert(self.guilds@, |g: Guild| g@, g.id, g);
        }
        self.guilds.insert(g.id, g);
    }
}

} // verus!
