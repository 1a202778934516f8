//! Events on guilds as a whole, and on their roles, emojis and stickers.

use std::collections::HashMap;
use vstd::prelude::*;

use crate::cache::{keys_of, lemma_view_remove, queue_matches, Cache, CacheView};
use crate::guild::{members_view, Guild, GuildInfo, GuildView};
use crate::model::{
    ChannelId, Emoji, EmojiId, GuildId, Member, MemberView, Role, RoleId, Sticker, StickerId, User, UserId,
};

verus! {

broadcast use vstd::std_specs::hash::group_hash_axioms;

/// A guild became available, with all of its state.
#[derive(Debug)]
pub struct GuildCreateEvent {
    pub guild: Guild,
}

/// A guild went away: through an outage if `unavailable`, else for good.
#[derive(Debug)]
pub struct GuildDeleteEvent {
    pub id: GuildId,
    pub unavailable: bool,
}

/// The part of a guild that a guild-updated event carries.
#[derive(Debug)]
pub struct PartialGuild {
    pub id: GuildId,
    pub info: GuildInfo,
    pub features: Vec<String>,
    pub roles: HashMap<RoleId, Role>,
}

/// A guild's settings changed.
#[derive(Debug)]
pub struct GuildUpdateEvent {
    pub guild: PartialGuild,
}

/// A guild's emojis changed.
#[derive(Debug)]
pub struct GuildEmojisUpdateEvent {
    pub guild_id: GuildId,
    pub emojis: HashMap<EmojiId, Emoji>,
}

/// A guild's stickers changed.
#[derive(Debug)]
pub struct GuildStickersUpdateEvent {
    pub guild_id: GuildId,
    pub stickers: HashMap<StickerId, Sticker>,
}

/// A role was created.
#[derive(Debug)]
pub struct GuildRoleCreateEvent {
    pub role: Role,
}

/// A role changed.
#[derive(Debug)]
pub struct GuildRoleUpdateEvent {
    pub role: Role,
}

/// A role was deleted.
#[derive(Debug)]
pub struct GuildRoleDeleteEvent {
    pub guild_id: GuildId,
    pub role_id: RoleId,
}

/// Some member of `members` is the user `u`.
pub open spec fn names_user(members: Map<UserId, MemberView>, u: UserId) -> bool {
    exists|k: UserId| #[trigger] members.contains_key(k) && members[k].user.id == u
}

/// `after` is `before` with the user of every member of `members` written in:
/// where two members name one user, one of their copies is kept.
pub open spec fn merged_users(
    before: Map<UserId, User>,
    members: Map<UserId, MemberView>,
    after: Map<UserId, User>,
) -> bool {
    &&& forall|u: UserId| #[trigger]
        after.contains_key(u) <==> before.contains_key(u) || names_user(members, u)
    &&& forall|u: UserId| #[trigger]
        before.contains_key(u) && !names_user(members, u) ==> after[u] == before[u]
    &&& forall|u: UserId| #[trigger]
        names_user(members, u) ==> exists|k: UserId| #[trigger]
            members.contains_key(k) && members[k].user.id == u && after[u] == members[k].user
}

/// The index entries of a guild's channels.
pub open spec fn channel_index(g: GuildView) -> Map<ChannelId, GuildId> {
    Map::new(|k: ChannelId| g.channels.contains_key(k), |k: ChannelId| g.id)
}

/// Members whose embedded users are replaced by the table's copies.
pub open spec fn normalized_members(
    members: Map<UserId, MemberView>,
    users: Map<UserId, User>,
) -> Map<UserId, MemberView> {
    members.map_values(
        |m: MemberView|
            if users.contains_key(m.user.id) {
                MemberView { user: users[m.user.id], ..m }
            } else {
                m
            },
    )
}

/// The cache after a guild arrives whole, with `users` as the merged user table:
/// the guild is stored with its members' users taken from that table.
pub open spec fn create_guild(c: CacheView, g: GuildView, users: Map<UserId, User>) -> CacheView {
    CacheView {
        unavailable_guilds: c.unavailable_guilds.remove(g.id),
        users: users,
        guilds: c.guilds.insert(g.id, GuildView { members: normalized_members(g.members, users), ..g }),
        channels: c.channels.union_prefer_right(channel_index(g)),
        ..c
    }
}

/// The cache after a guild goes away. Through an outage, it is marked unavailable
/// and only its record leaves; for good, its channels' index entries and histories go too.
pub open spec fn delete_guild(c: CacheView, id: GuildId, unavailable: bool) -> CacheView {
    if unavailable {
        CacheView {
            unavailable_guilds: c.unavailable_guilds.insert(id),
            guilds: c.guilds.remove(id),
            ..c
        }
    } else if c.guilds.contains_key(id) {
        let gone = c.guilds[id].channels.dom();
        CacheView {
            guilds: c.guilds.remove(id),
            channels: c.channels.remove_keys(gone),
            messages: c.messages.remove_keys(gone),
            message_queue: c.message_queue.remove_keys(gone),
            ..c
        }
    } else {
        c
    }
}

/// The cache after a guild's settings, features and roles are overwritten; the
/// rest of the guild is kept.
pub open spec fn update_guild(c: CacheView, id: GuildId, info: GuildInfo, features: Seq<String>, roles: Map<RoleId, Role>) -> CacheView {
    if c.guilds.contains_key(id) {
        let g = c.guilds[id];
        c.with_guild(GuildView { info: info, features: features, roles: roles, ..g })
    } else {
        c
    }
}

/// Replacing a member commutes with viewing every member.
proof fn lemma_members_view_update(m: Map<UserId, Member>, k: UserId, v: Member)
    ensures
        members_view(m.remove(k).insert(k, v)) == members_view(m).insert(k, v@),
{
    assert(members_view(m.remove(k).insert(k, v)) =~= members_view(m).insert(k, v@));
}

/// Some member under the first `n` keys of `ks` is the user `u`.
pub open spec fn seen_user(members: Map<UserId, MemberView>, ks: Seq<UserId>, n: int, u: UserId) -> bool {
    exists|j: int| 0 <= j < n && #[trigger] members[ks[j]].user.id == u
}

impl GuildCreateEvent {
    /// Stores the guild whole, clears its unavailable mark, writes its members' users
    /// into the user table, gives each stored member the table's copy of its user, and
    /// indexes the guild's channels.
    pub fn update(&mut self, cache: &mut Cache) -> (r: Option<()>)
        requires
            old(cache).wf(),
        ensures
            final(cache).wf(),
            merged_users(old(cache)@.users, old(self).guild@.members, final(cache)@.users),
            final(cache)@ == create_guild(old(cache)@, old(self).guild@, final(cache)@.users),
            *final(self) == *old(self),
            r.is_none(),
    {
        let ghost c0 = cache@;
        let id = self.guild.id;
        cache.unavailable_guilds.remove(&id);
        cache.merge_member_users(&self.guild.members);
        let ghost c2 = cache@;
        let mut guild = self.guild.clone();
        cache.normalize_members(&mut guild);
        proof {
            assert(guild@ == GuildView {
                members: normalized_members(self.guild@.members, c2.users),
                ..self.guild@
            });
        }
        let ghost gv = guild@;
        cache.put_guild(guild);
        let keys = keys_of(&self.guild.channels);
        let ghost ch0 = cache.channels@;
        let mut i: usize = 0;
        while i < keys.len()
            invariant
                i <= keys@.len(),
                cache.wf(),
                keys@.to_set() == self.guild.channels@.dom(),
                cache@ == (CacheView { channels: cache@.channels, ..c2.with_guild(gv) }),
                cache@.channels == ch0.union_prefer_right(
                    Map::new(|k: ChannelId| keys@.subrange(0, i as int).contains(k), |k: ChannelId| id),
                ),
            decreases keys@.len() - i,
        {
            cache.channels.insert(keys[i], id);
            proof {
                let s0 = keys@.subrange(0, i as int);
                let s1 = keys@.subrange(0, i + 1);
                assert forall|k: ChannelId| #[trigger] s1.contains(k) <==> s0.contains(k) || k == keys@[i as int] by {
                    if s1.contains(k) {
                        let j = choose|j: int| 0 <= j < s1.len() && s1[j] == k;
                        if j < i {
                            assert(s0[j] == k);
                        }
                    }
                    if s0.contains(k) {
                        let j = choose|j: int| 0 <= j < s0.len() && s0[j] == k;
                        assert(s1[j] == k);
                    }
                    if k == keys@[i as int] {
                        assert(s1[i as int] == k);
                    }
                }
                assert(cache@.channels =~= ch0.union_prefer_right(
                    Map::new(|k: ChannelId| s1.contains(k), |k: ChannelId| id),
                ));
            }
            i = i + 1;
        }
        proof {
            assert(keys@.subrange(0, i as int) =~= keys@);
            assert forall|k: ChannelId| keys@.contains(k) <==> #[trigger] self.guild@.channels.contains_key(k) by {
                if keys@.contains(k) {
                    assert(keys@.to_set().contains(k));
                }
                if self.guild@.channels.contains_key(k) {
                    assert(keys@.to_set().contains(k));
                }
            }
            let c3 = create_guild(c0, self.guild@, cache@.users);
            assert(cache@.channels =~= c3.channels);
            assert(cache@.unavailable_guilds =~= c3.unavailable_guilds);
            assert(cache@.guilds =~= c3.guilds);
        }
        None
    }
}

impl GuildDeleteEvent {
    /// Removes the guild. After an outage the guild is marked unavailable and its
    /// channels stay indexed; otherwise its channels and their histories go too, and
    /// the removed guild is returned.
    pub fn update(&mut self, cache: &mut Cache) -> (r: Option<Guild>)
        requires
            old(cache).wf(),
        ensures
            final(cache).wf(),
            final(cache)@ == delete_guild(old(cache)@, old(self).id, old(self).unavailable),
            *final(self) == *old(self),
            match r {
                Some(g) => !old(self).unavailable && old(cache)@.guilds.contains_key(old(self).id)
                    && g@ == old(cache)@.guilds[old(self).id],
                None => old(self).unavailable || !old(cache)@.guilds.contains_key(old(self).id),
            },
    {
        let ghost c0 = cache@;
        if self.unavailable {
            cache.unavailable_guilds.insert(self.id);
            cache.take_guild(self.id);
            proof {
                assert(cache@.guilds =~= c0.guilds.remove(self.id));
                assert(cache@.unavailable_guilds =~= c0.unavailable_guilds.insert(self.id));
            }
            return None;
        }
        let g = match cache.take_guild(self.id) {
            Some(g) => g,
            None => {
                return None;
            },
        };
        let keys = keys_of(&g.channels);
        let ghost c1 = cache@;
        let mut i: usize = 0;
        while i < keys.len()
            invariant
                i <= keys@.len(),
                cache.wf(),
                cache@ == (CacheView {
                    channels: cache@.channels,
                    messages: cache@.messages,
                    message_queue: cache@.message_queue,
                    ..c1
                }),
                cache@.channels == c1.channels.remove_keys(keys@.subrange(0, i as int).to_set()),
                cache@.messages == c1.messages.remove_keys(keys@.subrange(0, i as int).to_set()),
                cache@.message_queue == c1.message_queue.remove_keys(keys@.subrange(0, i as int).to_set()),
            decreases keys@.len() - i,
        {
            let k = keys[i];
            let ghost tm = cache.messages@;
            let ghost qm = cache.message_queue@;
            let ghost before = cache@;
            cache.channels.remove(&k);
            cache.messages.remove(&k);
            cache.message_queue.remove(&k);
            proof {
                lemma_view_remove(tm, |t: HashMap<u64, crate::model::Message>| t@, k);
                lemma_view_remove(qm, |q: std::collections::VecDeque<u64>| q@, k);
                let a = keys@.subrange(0, i as int);
                let b = keys@.subrange(0, i + 1);
                let s1 = b.to_set();
                assert(s1 =~= a.to_set().insert(k)) by {
                    assert forall|x: u64| s1.contains(x) <==> a.to_set().insert(k).contains(x) by {
                        if s1.contains(x) {
                            let j = choose|j: int| 0 <= j < b.len() && b[j] == x;
                            if j < i {
                                assert(a[j] == x);
                            }
                        }
                        if a.to_set().contains(x) {
                            let j = choose|j: int| 0 <= j < a.len() && a[j] == x;
                            assert(b[j] == x);
                        }
                        if x == k {
                            assert(b[i as int] == x);
                        }
                    }
                };
                assert(cache@.channels =~= c1.channels.remove_keys(s1));
                assert(cache@.messages =~= c1.messages.remove_keys(s1));
                assert(cache@.message_queue =~= c1.message_queue.remove_keys(s1));
                assert forall|c: ChannelId| #[trigger]
                    cache@.message_queue.contains_key(c) implies queue_matches(
                    cache@.message_queue[c],
                    cache@.messages[c],
                    cache@.max_messages,
                ) by {
                    assert(before.message_queue.contains_key(c));
                }
            }
            i = i + 1;
        }
        proof {
            assert(keys@.subrange(0, i as int) =~= keys@);
            let c2 = delete_guild(c0, self.id, false);
            assert(cache@.channels =~= c2.channels);
            assert(cache@.messages =~= c2.messages);
            assert(cache@.message_queue =~= c2.message_queue);
        }
        Some(g)
    }
}

impl GuildUpdateEvent {
    /// Overwrites the guild's settings, features and roles; every other field is kept.
    pub fn update(&mut self, cache: &mut Cache) -> (r: Option<()>)
        requires
            old(cache).wf(),
        ensures
            final(cache).wf(),
            final(cache)@ == update_guild(
                old(cache)@,
                old(self).guild.id,
                old(self).guild.info,
                old(self).guild.features@,
                old(self).guild.roles@,
            ),
            *final(self) == *old(self),
            r.is_none(),
    {
        let ghost c0 = cache@;
        if let Some(mut g) = cache.take_guild(self.guild.id) {
            g.info = self.guild.info.clone();
            let features = self.guild.features.clone();
            proof {
                assert(features@ =~= self.guild.features@);
            }
            g.features = features;
            g.roles = self.guild.roles.clone();
            cache.put_guild(g);
            proof {
                let c1 = update_guild(c0, self.guild.id, self.guild.info, self.guild.features@, self.guild.roles@);
                assert(cache@.guilds =~= c1.guilds);
            }
        }
        None
    }
}

/// The role stored under `id` in a cached guild, if any.
pub open spec fn role_of(c: CacheView, gid: GuildId, id: RoleId) -> Option<Role> {
    if c.guilds.contains_key(gid) && c.guilds[gid].roles.contains_key(id) {
        Some(c.guilds[gid].roles[id])
    } else {
        None
    }
}

/// The cache with a guild's role table set to `roles`, if the guild is cached.
pub open spec fn set_roles(c: CacheView, gid: GuildId, roles: Map<RoleId, Role>) -> CacheView {
    if c.guilds.contains_key(gid) {
        c.with_guild(GuildView { roles: roles, ..c.guilds[gid] })
    } else {
        c
    }
}

/// A guild's role table, empty if it is not cached.
pub open spec fn roles_of(c: CacheView, gid: GuildId) -> Map<RoleId, Role> {
    if c.guilds.contains_key(gid) {
        c.guilds[gid].roles
    } else {
        Map::empty()
    }
}

impl GuildEmojisUpdateEvent {
    /// Replaces the guild's emojis.
    pub fn update(&mut self, cache: &mut Cache) -> (r: Option<()>)
        requires
            old(cache).wf(),
        ensures
            final(cache).wf(),
            final(cache)@ == (if old(cache)@.guilds.contains_key(old(self).guild_id) {
                let g = old(cache)@.guilds[old(self).guild_id];
                old(cache)@.with_guild(GuildView { emojis: old(self).emojis@, ..g })
            } else {
                old(cache)@
            }),
            *final(self) == *old(self),
            r.is_none(),
    {
        if let Some(mut g) = cache.take_guild(self.guild_id) {
            g.emojis = self.emojis.clone();
            cache.put_guild(g);
            proof {
                assert(cache@.guilds =~= old(cache)@.guilds.insert(
                    self.guild_id,
                    GuildView { emojis: self.emojis@, ..old(cache)@.guilds[self.guild_id] },
                ));
            }
        }
        None
    }
}

impl GuildStickersUpdateEvent {
    /// Replaces the guild's stickers.
    pub fn update(&mut self, cache: &mut Cache) -> (r: Option<()>)
        requires
            old(cache).wf(),
        ensures
            final(cache).wf(),
            final(cache)@ == (if old(cache)@.guilds.contains_key(old(self).guild_id) {
                let g = old(cache)@.guilds[old(self).guild_id];
                old(cache)@.with_guild(GuildView { stickers: old(self).stickers@, ..g })
            } else {
                old(cache)@
            }),
            *final(self) == *old(self),
            r.is_none(),
    {
        if let Some(mut g) = cache.take_guild(self.guild_id) {
            g.stickers = self.stickers.clone();
            cache.put_guild(g);
            proof {
                assert(cache@.guilds =~= old(cache)@.guilds.insert(
                    self.guild_id,
                    GuildView { stickers: self.stickers@, ..old(cache)@.guilds[self.guild_id] },
                ));
            }
        }
        None
    }
}

impl GuildRoleCreateEvent {
    /// Stores the role in its guild.
    pub fn update(&mut self, cache: &mut Cache) -> (r: Option<()>)
        requires
            old(cache).wf(),
        ensures
            final(cache).wf(),
            final(cache)@ == set_roles(
                old(cache)@,
                old(self).role.guild_id,
                roles_of(old(cache)@, old(self).role.guild_id).insert(old(self).role.id, old(self).role),
            ),
            *final(self) == *old(self),
            r.is_none(),
    {
        if let Some(mut g) = cache.take_guild(self.role.guild_id) {
            g.roles.insert(self.role.id, self.role.clone());
            cache.put_guild(g);
            proof {
                let c1 = set_roles(
                    old(cache)@,
                    self.role.guild_id,
                    roles_of(old(cache)@, self.role.guild_id).insert(self.role.id, self.role),
                );
                assert(cache@.guilds =~= c1.guilds);
            }
        }
        None
    }
}

impl GuildRoleUpdateEvent {
    /// Replaces the role, if its guild holds it; returns the role it replaced.
    pub fn update(&mut self, cache: &mut Cache) -> (r: Option<Role>)
        requires
            old(cache).wf(),
        ensures
            final(cache).wf(),
            final(cache)@ == (if role_of(old(cache)@, old(self).role.guild_id, old(self).role.id).is_some() {
                set_roles(
                    old(cache)@,
                    old(self).role.guild_id,
                    roles_of(old(cache)@, old(self).role.guild_id).insert(old(self).role.id, old(self).role),
                )
            } else {
                old(cache)@
            }),
            r == role_of(old(cache)@, old(self).role.guild_id, old(self).role.id),
            *final(self) == *old(self),
    {
        let mut g = match cache.take_guild(self.role.guild_id) {
            Some(g) => g,
            None => {
                return None;
            },
        };
        let r = if g.roles.contains_key(&self.role.id) {
            g.roles.insert(self.role.id, self.role.clone())
        } else {
            None
        };
        cache.put_guild(g);
        proof {
            if r.is_none() {
                assert(cache@.guilds =~= old(cache)@.guilds);
            } else {
                let c1 = set_roles(
                    old(cache)@,
                    self.role.guild_id,
                    roles_of(old(cache)@, self.role.guild_id).insert(self.role.id, self.role),
                );
                assert(cache@.guilds =~= c1.guilds);
            }
        }
        r
    }
}

impl GuildRoleDeleteEvent {
    /// Removes the role from its guild; returns it.
    pub fn update(&mut self, cache: &mut Cache) -> (r: Option<Role>)
        requires
            old(cache).wf(),
        ensures
            final(cache).wf(),
            final(cache)@ == set_roles(
                old(cache)@,
                old(self).guild_id,
                roles_of(old(cache)@, old(self).guild_id).remove(old(self).role_id),
            ),
            r == role_of(old(cache)@, old(self).guild_id, old(self).role_id),
            *final(self) == *old(self),
    {
        let mut g = match cache.take_guild(self.guild_id) {
            Some(g) => g,
            None => {
                return None;
            },
        };
        let r = g.roles.remove(&self.role_id);
        cache.put_guild(g);
        proof {
            let c1 = set_roles(
                old(cache)@,
                self.guild_id,
                roles_of(old(cache)@, self.guild_id).remove(self.role_id),
            );
            assert(cache@.guilds =~= c1.guilds);
        }
        r
    }
}

impl Cache {
    /// Replaces each member's embedded user by the user table's copy.
    fn normalize_members(&self, g: &mut Guild)
        ensures
            final(g)@ == (GuildView {
                members: normalized_members(old(g)@.members, self@.users),
                ..old(g)@
            }),
    {
        let ghost g0 = g@;
        let ghost users = self@.users;
        let keys = keys_of(&g.members);
        let mut i: usize = 0;
        while i < keys.len()
            invariant
                i <= keys@.len(),
                keys@.to_set() == g0.members.dom(),
                keys@.no_duplicates(),
                users == self@.users,
                g@ == (GuildView { members: g@.members, ..g0 }),
                g@.members.dom() == g0.members.dom(),
                forall|k: UserId| #[trigger] g@.members.contains_key(k) ==> g@.members[k] == (
                    if keys@.subrange(0, i as int).contains(k) {
                        normalized_members(g0.members, users)[k]
                    } else {
                        g0.members[k]
                    }),
            decreases keys@.len() - i,
        {
            let k = keys[i];
            proof {
                assert(keys@.to_set().contains(k));
                assert(!keys@.subrange(0, i as int).contains(k)) by {
                    if keys@.subrange(0, i as int).contains(k) {
                        let j = choose|j: int| 0 <= j < i && keys@.subrange(0, i as int)[j] == k;
                        assert(keys@[j] == keys@[i as int]);
                    }
                };
            }
            let ghost before = g@.members;
            let ghost raw = g.members@;
            match g.members.remove(&k) {
                Some(mut m) => {
                    proof {
                        assert(before[k] == m@);
                        assert(m@ == g0.members[k]);
                    }
                    match self.users.get(&m.user.id) {
                        Some(u) => {
                            m.user = u.clone();
                        },
                        None => {},
                    }
                    proof {
                        assert(m@ == normalized_members(g0.members, users)[k]);
                        lemma_members_view_update(raw, k, m);
                    }
                    g.members.insert(k, m);
                },
                None => {
                    proof {
                        assert(false);
                    }
                },
            }
            proof {
                let a = keys@.subrange(0, i as int);
                let b = keys@.subrange(0, i + 1);
                assert forall|x: UserId| b.contains(x) <==> a.contains(x) || x == k by {
                    if b.contains(x) {
                        let j = choose|j: int| 0 <= j < b.len() && b[j] == x;
                        if j < i {
                            assert(a[j] == x);
                        }
                    }
                    if a.contains(x) {
                        let j = choose|j: int| 0 <= j < a.len() && a[j] == x;
                        assert(b[j] == x);
                    }
                    if x == k {
                        assert(b[i as int] == x);
                    }
                }
                assert(g@.members.dom() =~= g0.members.dom());
            }
            i = i + 1;
        }
        proof {
            assert(keys@.subrange(0, i as int) =~= keys@);
            assert forall|k: UserId| keys@.contains(k) <==> #[trigger] g0.members.contains_key(k) by {
                assert(keys@.to_set().contains(k) <==> keys@.contains(k));
            }
            assert(g@.members =~= normalized_members(g0.members, users));
        }
    }

    /// Writes the user of every member of `g` into the user table.
    pub(crate) fn merge_member_users(&mut self, members: &HashMap<UserId, Member>)
        requires
            old(self).wf(),
        ensures
            final(self).wf(),
            merged_users(old(self)@.users, members_view(members@), final(self)@.users),
            final(self)@ == (CacheView { users: final(self)@.users, ..old(self)@ }),
    {
        let ghost u0 = self.users@;
        let ghost mv = members_view(members@);
        let keys = keys_of(members);
        let mut i: usize = 0;
        while i < keys.len()
            invariant
                i <= keys@.len(),
                keys@.to_set() == members@.dom(),
                mv == members_view(members@),
                self.wf(),
                self@ == (CacheView { users: self@.users, ..old(self)@ }),
                forall|u: UserId| #[trigger]
                    self@.users.contains_key(u) <==> u0.contains_key(u) || seen_user(mv, keys@, i as int, u),
                forall|u: UserId| #[trigger]
                    u0.contains_key(u) && !seen_user(mv, keys@, i as int, u) ==> self@.users[u] == u0[u],
                forall|u: UserId| #[trigger]
                    seen_user(mv, keys@, i as int, u) ==> exists|j: int|
                        0 <= j < i && #[trigger] mv[keys@[j]].user.id == u && self@.users[u]
                            == mv[keys@[j]].user,
            decreases keys@.len() - i,
        {
            let k = keys[i];
            proof {
                assert(keys@.to_set().contains(k));
            }
            match members.get(&k) {
                Some(m) => {
                    let ghost uid = m.user.id;
                    proof {
                        assert(mv[k] == m@);
                    }
                    let ghost users_before = self@.users;
                    self.users.insert(m.user.id, m.user.clone());
                    proof {
                        assert forall|u: UserId| #[trigger]
                            seen_user(mv, keys@, i + 1, u) <==> seen_user(mv, keys@, i as int, u) || u == uid by {
                            if u == uid {
                                assert(mv[keys@[i as int]].user.id == u);
                            }
                            if seen_user(mv, keys@, i + 1, u) && u != uid {
                                let j = choose|j: int| 0 <= j < i + 1 && #[trigger] mv[keys@[j]].user.id == u;
                                assert(j != i);
                            }
                        }
                        assert forall|u: UserId| #[trigger]
                            seen_user(mv, keys@, i + 1, u) implies exists|j: int|
                                0 <= j < i + 1 && #[trigger] mv[keys@[j]].user.id == u && self@.users[u]
                                    == mv[keys@[j]].user by {
                            if u == uid {
                                assert(mv[keys@[i as int]].user.id == u && self@.users[u] == mv[keys@[i as int]].user);
                            } else {
                                assert(seen_user(mv, keys@, i as int, u));
                                let j = choose|j: int|
                                    0 <= j < i && #[trigger] mv[keys@[j]].user.id == u && users_before[u]
                                        == mv[keys@[j]].user;
                                assert(self@.users[u] == users_before[u]);
                            }
                        }
                    }
                },
                None => {
                    proof {
                        assert(false);
                    }
                },
            }
            i = i + 1;
        }
        proof {
            assert forall|u: UserId| #[trigger] seen_user(mv, keys@, keys@.len() as int, u) <==> names_user(mv, u) by {
                if seen_user(mv, keys@, keys@.len() as int, u) {
                    let j = choose|j: int| 0 <= j < keys@.len() && #[trigger] mv[keys@[j]].user.id == u;
                    assert(keys@.to_set().contains(keys@[j]));
                    assert(mv.contains_key(keys@[j]));
                }
                if names_user(mv, u) {
                    let k = choose|k: UserId| #[trigger] mv.contains_key(k) && mv[k].user.id == u;
                    assert(keys@.to_set().contains(k));
                    let j = choose|j: int| 0 <= j < keys@.len() && keys@[j] == k;
                    assert(mv[keys@[j]].user.id == u);
                }
            }
            assert forall|u: UserId| #[trigger] names_user(mv, u) implies exists|k: UserId| #[trigger]
                mv.contains_key(k) && mv[k].user.id == u && self@.users[u] == mv[k].user by {
                assert(seen_user(mv, keys@, keys@.len() as int, u));
                let j = choose|j: int|
                    0 <= j < keys@.len() && #[trigger] mv[keys@[j]].user.id == u && self@.users[u] == mv[keys@[j]].user;
                assert(keys@.to_set().contains(keys@[j]));
                assert(mv.contains_key(keys@[j]));
            }
        }
    }
}

} // verus!
