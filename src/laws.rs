//! Properties that hold across events, proved over the cache's value.

use vstd::prelude::*;

use crate::cache::CacheView;
use crate::channel_events::{replaced_channel, upsert_channel};
use crate::guild::{GuildInfo, GuildView};
use crate::guild_events::{create_guild, delete_guild, normalized_members, update_guild};
use crate::member_events::{
    apply_presence, member_after_update, normalized_presence, patched_member, placeholder_member,
    presence_users, update_member, GuildMemberUpdateEvent,
};
use crate::message_events::{
    evicted_by, lemma_drop_first_to_set, lemma_push_to_set, note_newest, queue_of, store_message,
    table_of,
};
use crate::model::{
    presence_user_spec, Channel, ChannelId, GuildId, Message, MessageId, OnlineStatus, Presence,
    Role, RoleId, User, UserId,
};

verus! {

/// Storing the same channel twice leaves the cache as storing it once, and the
/// second store reports the channel the first one stored.
pub proof fn lemma_channel_update_idempotent(c: CacheView, ch: Channel)
    requires
        c.wf(),
    ensures
        upsert_channel(upsert_channel(c, ch), ch) == upsert_channel(c, ch),
        replaced_channel(upsert_channel(c, ch), ch) == (if c.guilds.contains_key(ch.guild_id) {
            Some(ch)
        } else {
            None
        }),
{
    let c1 = upsert_channel(c, ch);
    let c2 = upsert_channel(c1, ch);
    assert(c2.channels =~= c1.channels);
    if c.guilds.contains_key(ch.guild_id) {
        let g1 = c1.guilds[ch.guild_id];
        assert(g1.channels.insert(ch.id, ch) =~= g1.channels);
        assert(c2.guilds =~= c1.guilds);
    }
}

/// After an outage, the guild arriving again is stored (its members' users taken
/// from the user table), no longer marked unavailable, and each of its channels is
/// indexed under it.
pub proof fn lemma_outage_recovery(c: CacheView, g: GuildView, users: Map<UserId, User>)
    requires
        c.wf(),
    ensures
        ({
            let back = create_guild(delete_guild(c, g.id, true), g, users);
            &&& back.guilds.contains_key(g.id)
            &&& back.guilds[g.id] == (GuildView { members: normalized_members(g.members, users), ..g })
            &&& !back.unavailable_guilds.contains(g.id)
            &&& forall|ch| #[trigger] g.channels.contains_key(ch) ==> back.channels.contains_key(ch)
                && back.channels[ch] == g.id
        }),
{
}

/// Removing a guild for good leaves none of its channels in the index, nor any of
/// their message tables or queues.
pub proof fn lemma_guild_removal_purges(c: CacheView, id: GuildId)
    requires
        c.wf(),
        c.guilds.contains_key(id),
    ensures
        ({
            let gone = delete_guild(c, id, false);
            &&& !gone.guilds.contains_key(id)
            &&& forall|ch| #[trigger] c.guilds[id].channels.contains_key(ch) ==> {
                &&& !gone.channels.contains_key(ch)
                &&& !gone.messages.contains_key(ch)
                &&& !gone.message_queue.contains_key(ch)
            }
        }),
{
}

/// A guild-updated event overwrites only the guild's settings, features and roles:
/// its channels, threads, members, presences, voice states, emojis, stickers and
/// member count are as they were, and no other guild or table changes.
pub proof fn lemma_guild_update_keeps_rest(
    c: CacheView,
    id: GuildId,
    info: GuildInfo,
    features: Seq<String>,
    roles: Map<RoleId, Role>,
)
    requires
        c.wf(),
        c.guilds.contains_key(id),
    ensures
        ({
            let before = c.guilds[id];
            let after = update_guild(c, id, info, features, roles);
            &&& after.guilds[id] == (GuildView { info: info, features: features, roles: roles, ..before })
            &&& after.guilds.remove(id) == c.guilds.remove(id)
            &&& after == (CacheView { guilds: after.guilds, ..c })
        }),
{
    let after = update_guild(c, id, info, features, roles);
    assert(after.guilds.remove(id) =~= c.guilds.remove(id));
}

/// A member-updated event on a cached member keeps what the event does not carry
/// (guild, permissions, flags), sets what it carries, and leaves other members alone.
pub proof fn lemma_member_patch_keeps_absent_fields(c: CacheView, e: GuildMemberUpdateEvent)
    requires
        c.wf(),
        c.guilds.contains_key(e.guild_id),
        c.guilds[e.guild_id].members.contains_key(e.user.id),
    ensures
        ({
            let before = c.guilds[e.guild_id].members[e.user.id];
            let after = update_member(c, e).guilds[e.guild_id].members[e.user.id];
            &&& after == patched_member(before, e)
            &&& after.guild_id == before.guild_id
            &&& after.permissions == before.permissions
            &&& after.flags == before.flags
            &&& after.nick == e.nick
            &&& after.roles == e.roles@
            &&& after.user == e.user
            &&& forall|u: UserId| #[trigger] c.guilds[e.guild_id].members.contains_key(u) && u != e.user.id
                ==> update_member(c, e).guilds[e.guild_id].members[u] == c.guilds[e.guild_id].members[u]
        }),
{
}

/// In a cached guild, an offline presence is removed, any other is stored; and a
/// user with a full user record and no member gets a placeholder member.
pub proof fn lemma_presence_rules(c: CacheView, p: Presence, gid: GuildId)
    requires
        c.wf(),
        p.guild_id == Some(gid),
        c.guilds.contains_key(gid),
    ensures
        ({
            let after = apply_presence(c, p).guilds[gid];
            let np = normalized_presence(presence_users(c, p), p);
            &&& p.status == OnlineStatus::Offline ==> !after.presences.contains_key(p.user.id)
            &&& p.status != OnlineStatus::Offline ==> after.presences.contains_key(p.user.id)
                && after.presences[p.user.id] == np
            &&& presence_user_spec(p.user).is_some() && !c.guilds[gid].members.contains_key(p.user.id)
                ==> after.members.contains_key(p.user.id)
                && after.members[p.user.id] == placeholder_member(presence_user_spec(np.user).unwrap(), gid)
        }),
{
}

/// The cache after a message-created event.
pub open spec fn message_created(c: CacheView, m: Message) -> CacheView {
    store_message(note_newest(c, m), m)
}

/// The cache after each message of `ms` is created in turn.
pub open spec fn created_all(c: CacheView, ms: Seq<Message>) -> CacheView
    decreases ms.len(),
{
    if ms.len() == 0 {
        c
    } else {
        message_created(created_all(c, ms.drop_last()), ms.last())
    }
}

/// The messages evicted while each message of `ms` is created in turn, in order.
pub open spec fn evicted_all(c: CacheView, ms: Seq<Message>) -> Seq<Message>
    decreases ms.len(),
{
    if ms.len() == 0 {
        Seq::empty()
    } else {
        let before = created_all(c, ms.drop_last());
        evicted_all(c, ms.drop_last()) + match evicted_by(before, ms.last()) {
            Some(m) => seq![m],
            None => Seq::empty(),
        }
    }
}

/// The ids of a sequence of messages.
pub open spec fn ids_of(ms: Seq<Message>) -> Seq<MessageId> {
    ms.map_values(|m: Message| m.id)
}

/// How many of `n` arrivals a history capped at `max` keeps.
pub open spec fn kept(n: int, max: int) -> int {
    if n < max {
        n
    } else {
        max
    }
}

/// Message histories are first in, first out: when distinct messages arrive one after
/// another on a channel with no history, the channel keeps exactly the newest
/// `max_messages` of them, oldest first, never more, and the messages evicted along
/// the way are exactly the older ones, in arrival order.
pub proof fn lemma_history_fifo(c: CacheView, cid: ChannelId, ms: Seq<Message>)
    requires
        c.max_messages > 0,
        !c.messages.contains_key(cid),
        !c.message_queue.contains_key(cid),
        forall|i: int| 0 <= i < ms.len() ==> (#[trigger] ms[i]).channel_id == cid,
        ids_of(ms).no_duplicates(),
    ensures
        ({
            let n = ms.len() as int;
            let k = kept(n, c.max_messages as int);
            let after = created_all(c, ms);
            let window = ids_of(ms).subrange(n - k, n);
            &&& after.max_messages == c.max_messages
            &&& queue_of(after, cid) == window
            &&& table_of(after, cid).dom() == window.to_set()
            &&& forall|id: MessageId| #[trigger] table_of(after, cid).contains_key(id)
                ==> table_of(after, cid)[id].id == id
            &&& table_of(after, cid).len() == k
            &&& table_of(after, cid).len() <= c.max_messages
            &&& ids_of(evicted_all(c, ms)) == ids_of(ms).subrange(0, n - k)
        }),
    decreases ms.len(),
{
    let n = ms.len() as int;
    let max = c.max_messages as int;
    let ids = ids_of(ms);
    if n == 0 {
        assert(ids.subrange(0, 0) =~= Seq::<MessageId>::empty());
        assert(Seq::<MessageId>::empty().to_set() =~= Set::empty());
        assert(table_of(c, cid) =~= Map::empty());
        assert(ids_of(evicted_all(c, ms)) =~= Seq::<MessageId>::empty());
    } else {
        let ms0 = ms.drop_last();
        let m = ms.last();
        assert(ids_of(ms0) =~= ids.drop_last());
        assert forall|i: int| 0 <= i < ms0.len() implies (#[trigger] ms0[i]).channel_id == cid by {
            assert(ms0[i] == ms[i]);
        }
        assert(m.channel_id == cid);
        lemma_history_fifo(c, cid, ms0);
        let c0 = created_all(c, ms0);
        let c1 = note_newest(c0, m);
        let k0 = kept(n - 1, max);
        let q0 = queue_of(c0, cid);
        let t0 = table_of(c0, cid);
        assert(q0 =~= ids.subrange(n - 1 - k0, n - 1));
        assert(c1.messages == c0.messages && c1.message_queue == c0.message_queue
            && c1.max_messages == c0.max_messages);
        assert(ids[n - 1] == m.id);
        assert(!q0.contains(m.id)) by {
            if q0.contains(m.id) {
                let j = choose|j: int| 0 <= j < q0.len() && q0[j] == m.id;
                assert(ids[n - 1 - k0 + j] == ids[n - 1]);
            }
        };
        assert(!t0.contains_key(m.id)) by {
            if t0.contains_key(m.id) {
                assert(q0.to_set().contains(m.id));
            }
        };
        let after = created_all(c, ms);
        assert(after == store_message(c1, m));
        if n - 1 < max {
            let w = ids.subrange(0, n);
            assert(q0.push(m.id) =~= w);
            assert(queue_of(after, cid) == w);
            lemma_push_to_set(q0, m.id);
            assert(table_of(after, cid).dom() =~= w.to_set());
            assert(evicted_by(c1, m).is_none());
            assert(evicted_all(c, ms) =~= evicted_all(c, ms0));
            assert(ids.subrange(0, 0) =~= ids_of(ms0).subrange(0, 0));
            w.unique_seq_to_set();
        } else {
            let w = ids.subrange(n - max, n);
            assert(q0.len() == max);
            assert(q0.drop_first().push(m.id) =~= w);
            assert(queue_of(after, cid) == w);
            assert(q0.to_set().contains(q0[0]));
            assert(evicted_by(c1, m) == Some(t0[q0[0]]));
            assert(t0[q0[0]].id == q0[0]);
            let e0 = evicted_all(c, ms0);
            assert(evicted_all(c, ms) == e0 + seq![t0[q0[0]]]);
            assert(ids_of(evicted_all(c, ms)) =~= ids_of(e0).push(q0[0]));
            assert(ids.subrange(0, n - max) =~= ids.subrange(0, n - 1 - max).push(q0[0]));
            assert(ids_of(ms0).subrange(0, n - 1 - max) =~= ids.subrange(0, n - 1 - max));
            assert(q0.no_duplicates()) by {
                assert forall|a: int, b: int| 0 <= a < q0.len() && 0 <= b < q0.len() && a != b implies q0[a] != q0[b] by {
                    assert(q0[a] == ids[n - 1 - max + a] && q0[b] == ids[n - 1 - max + b]);
                }
            };
            lemma_drop_first_to_set(q0);
            lemma_push_to_set(q0.drop_first(), m.id);
            assert(table_of(after, cid).dom() =~= w.to_set());
            w.unique_seq_to_set();
        }
    }
}

} // verus!
