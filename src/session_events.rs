//! Events on the connection itself: the initial ready state and the logged-in user.

use vstd::prelude::*;

use crate::cache::{lemma_view_remove, Cache, CacheView};
use crate::model::{CurrentUser, GuildId, ShardId};

verus! {

broadcast use vstd::std_specs::hash::group_hash_axioms;

/// Which shard a connection is, of how many.
#[derive(Clone, Copy, Debug)]
pub struct ShardInfo {
    pub id: ShardId,
    pub total: u32,
}

/// What the service sends once a connection is established.
#[derive(Debug)]
pub struct Ready {
    /// The guilds not available yet.
    pub guilds: Vec<GuildId>,
    pub shard: Option<ShardInfo>,
    pub user: CurrentUser,
}

/// A connection is established.
#[derive(Debug)]
pub struct ReadyEvent {
    pub ready: Ready,
}

/// The logged-in user changed.
#[derive(Debug)]
pub struct UserUpdateEvent {
    pub current_user: CurrentUser,
}

/// The shard that a ready event reports, the sole one when it reports none.
pub open spec fn ready_shard(r: Ready) -> ShardInfo {
    match r.shard {
        Some(s) => s,
        None => ShardInfo { id: 1, total: 1 },
    }
}

/// The cache after a ready event: each listed guild is marked unavailable and
/// leaves the guild table; the shard counts and the current user are set.
pub open spec fn apply_ready(c: CacheView, r: Ready) -> CacheView {
    let s = ready_shard(r);
    CacheView {
        guilds: c.guilds.remove_keys(r.guilds@.to_set()),
        unavailable_guilds: c.unavailable_guilds.union(r.guilds@.to_set()),
        shard_total: s.total,
        shards_connected: c.shards_connected.insert(s.id),
        user: r.user,
        ..c
    }
}

impl ReadyEvent {
    /// Marks the listed guilds unavailable, records the shard and sets the current user.
    pub fn update(&mut self, cache: &mut Cache) -> (r: Option<()>)
        requires
            old(cache).wf(),
        ensures
            final(cache).wf(),
            final(cache)@ == apply_ready(old(cache)@, old(self).ready),
            *final(self) == *old(self),
            r.is_none(),
    {
        let ghost c0 = cache@;
        let mut i: usize = 0;
        proof {
            let e = self.ready.guilds@.subrange(0, 0);
            assert(e.to_set() =~= Set::empty());
            assert(c0.guilds.remove_keys(e.to_set()) =~= c0.guilds);
            assert(c0.unavailable_guilds.union(e.to_set()) =~= c0.unavailable_guilds);
        }
        while i < self.ready.guilds.len()
            invariant
                i <= self.ready.guilds@.len(),
                cache.wf(),
                cache@ == (CacheView {
                    guilds: c0.guilds.remove_keys(self.ready.guilds@.subrange(0, i as int).to_set()),
                    unavailable_guilds: c0.unavailable_guilds.union(
                        self.ready.guilds@.subrange(0, i as int).to_set(),
                    ),
                    ..c0
                }),
            decreases self.ready.guilds@.len() - i,
        {
            let id = self.ready.guilds[i];
            cache.take_guild(id);
            cache.unavailable_guilds.insert(id);
            proof {
                let a = self.ready.guilds@.subrange(0, i as int);
                let b = self.ready.guilds@.subrange(0, i + 1);
                assert(b.to_set() =~= a.to_set().insert(id)) by {
                    assert forall|x: u64| b.to_set().contains(x) <==> a.to_set().insert(id).contains(x) by {
                        if b.to_set().contains(x) {
                            let j = choose|j: int| 0 <= j < b.len() && b[j] == x;
                            if j < i {
                                assert(a[j] == x);
                            }
                        }
                        if a.to_set().contains(x) {
                            let j = choose|j: int| 0 <= j < a.len() && a[j] == x;
                            assert(b[j] == x);
                        }
                        if x == id {
                            assert(b[i as int] == x);
                        }
                    }
                };
                assert(cache@.guilds =~= c0.guilds.remove_keys(b.to_set()));
                assert(cache@.unavailable_guilds =~= c0.unavailable_guilds.union(b.to_set()));
            }
            i = i + 1;
        }
        proof {
            assert(self.ready.guilds@.subrange(0, i as int) =~= self.ready.guilds@);
        }
        let shard = match self.ready.shard {
            Some(s) => s,
            None => ShardInfo { id: 1, total: 1 },
        };
        cache.shard_data.total = shard.total;
        cache.shard_data.connected.insert(shard.id);
        cache.user = self.ready.user.clone();
        None
    }
}

impl UserUpdateEvent {
    /// Replaces the current user; returns the previous one.
    pub fn update(&mut self, cache: &mut Cache) -> (r: Option<CurrentUser>)
        requires
            old(cache).wf(),
        ensures
            final(cache).wf(),
            final(cache)@ == (CacheView { user: old(self).current_user, ..old(cache)@ }),
            r == Some(old(cache)@.user),
            *final(self) == *old(self),
    {
        let mut user = self.current_user.clone();
        std::mem::swap(&mut cache.user, &mut user);
        Some(user)
    }
}

} // verus!
