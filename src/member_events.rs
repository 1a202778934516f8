//! Events on the members of guilds.

use std::collections::HashMap;
use vstd::prelude::*;

use crate::cache::{keys_of, Cache, CacheView};
use crate::guild::{members_view, GuildView};
use crate::guild_events::merged_users;
use crate::model::{
    clone_opt_string, clone_ids, presence_user_spec, GuildId, Member, MemberView, OnlineStatus,
    Presence, PresenceUser, RoleId, User, UserId, VoiceState,
};

verus! {

broadcast use vstd::std_specs::hash::group_hash_axioms;

/// A user joined a guild.
#[derive(Debug)]
pub struct GuildMemberAddEvent {
    pub member: Member,
}

/// A user left a guild.
#[derive(Debug)]
pub struct GuildMemberRemoveEvent {
    pub guild_id: GuildId,
    pub user: User,
}

/// A member changed; the event carries the fields that can change.
#[derive(Debug)]
pub struct GuildMemberUpdateEvent {
    pub guild_id: GuildId,
    pub user: User,
    pub nick: Option<String>,
    pub roles: Vec<RoleId>,
    pub joined_at: i64,
    pub premium_since: Option<i64>,
    pub deaf: bool,
    pub mute: bool,
    pub pending: bool,
    pub avatar: Option<String>,
    pub communication_disabled_until: Option<i64>,
    pub unusual_dm_activity_until: Option<i64>,
}

/// A batch of a guild's members, sent on request.
#[derive(Debug)]
pub struct GuildMembersChunkEvent {
    pub guild_id: GuildId,
    pub members: HashMap<UserId, Member>,
}

/// A user's presence changed.
#[derive(Debug)]
pub struct PresenceUpdateEvent {
    pub presence: Presence,
}

/// A user's voice connection changed; `member` is sent in guilds.
#[derive(Debug)]
pub struct VoiceStateUpdateEvent {
    pub voice_state: VoiceState,
    pub member: Option<Member>,
}

/// The cache after a chunk of members: their users are written into the user table
/// (`users`), and a cached guild stores each of them.
pub open spec fn add_members(
    c: CacheView,
    gid: GuildId,
    chunk: Map<UserId, MemberView>,
    users: Map<UserId, User>,
) -> CacheView {
    let c1 = CacheView { users: users, ..c };
    if c.guilds.contains_key(gid) {
        let g = c.guilds[gid];
        c1.with_guild(GuildView { members: g.members.union_prefer_right(chunk), ..g })
    } else {
        c1
    }
}

/// The member built from a presence, for a user who has none in the guild yet.
pub open spec fn placeholder_member(user: User, gid: GuildId) -> MemberView {
    MemberView {
        user: user,
        guild_id: gid,
        nick: None,
        roles: Seq::empty(),
        joined_at: None,
        premium_since: None,
        deaf: false,
        mute: false,
        pending: false,
        avatar: None,
        permissions: None,
        communication_disabled_until: None,
        unusual_dm_activity_until: None,
        flags: 0,
    }
}

/// The user table after a presence: its full user, when it names one, is written in.
pub open spec fn presence_users(c: CacheView, p: Presence) -> Map<UserId, User> {
    match presence_user_spec(p.user) {
        Some(u) => c.users.insert(u.id, u),
        None => c.users,
    }
}

/// A presence with its user filled from the user table, when the table has the user.
pub open spec fn normalized_presence(users: Map<UserId, User>, p: Presence) -> Presence {
    if users.contains_key(p.user.id) {
        let u = users[p.user.id];
        Presence {
            user: PresenceUser { id: u.id, name: Some(u.name), avatar: u.avatar, bot: Some(u.bot) },
            ..p
        }
    } else {
        p
    }
}

/// The cache after a presence: the user table gains its user; in a cached guild an
/// offline presence is dropped and any other stored, and a user with a full user
/// record but no member yet gets a placeholder member.
pub open spec fn apply_presence(c: CacheView, p: Presence) -> CacheView {
    let users = presence_users(c, p);
    let np = normalized_presence(users, p);
    let c1 = CacheView { users: users, ..c };
    let uid = np.user.id;
    match np.guild_id {
        Some(gid) => if c.guilds.contains_key(gid) {
            let g = c.guilds[gid];
            let presences = if np.status == OnlineStatus::Offline {
                g.presences.remove(uid)
            } else {
                g.presences.insert(uid, np)
            };
            let members = match presence_user_spec(np.user) {
                Some(u) => if g.members.contains_key(uid) {
                    g.members
                } else {
                    g.members.insert(uid, placeholder_member(u, gid))
                },
                None => g.members,
            };
            c1.with_guild(GuildView { presences: presences, members: members, ..g })
        } else {
            c1
        },
        None => c1,
    }
}

/// The cache after a voice state: in a cached guild the sent member is stored, and
/// the voice state is stored while it names a channel, or dropped once it names none.
pub open spec fn apply_voice_state(c: CacheView, vs: VoiceState, member: Option<MemberView>) -> CacheView {
    match vs.guild_id {
        Some(gid) => if c.guilds.contains_key(gid) {
            let g = c.guilds[gid];
            let members = match member {
                Some(m) => g.members.insert(m.user.id, m),
                None => g.members,
            };
            let states = if vs.channel_id.is_some() {
                g.voice_states.insert(vs.user_id, vs)
            } else {
                g.voice_states.remove(vs.user_id)
            };
            c.with_guild(GuildView { members: members, voice_states: states, ..g })
        } else {
            c
        },
        None => c,
    }
}

/// An optional member, as a value.
pub open spec fn opt_member_view(m: Option<Member>) -> Option<MemberView> {
    match m {
        Some(m) => Some(m@),
        None => None,
    }
}

/// The voice state that a voice-state event replaces or drops.
pub open spec fn replaced_voice_state(c: CacheView, vs: VoiceState) -> Option<VoiceState> {
    match vs.guild_id {
        Some(gid) => if c.guilds.contains_key(gid) && c.guilds[gid].voice_states.contains_key(
            vs.user_id,
        ) {
            Some(c.guilds[gid].voice_states[vs.user_id])
        } else {
            None
        },
        None => None,
    }
}

/// One more, saturating at the top of the type.
pub open spec fn count_up(n: u64) -> u64 {
    if n == u64::MAX {
        n
    } else {
        (n + 1) as u64
    }
}

/// One fewer, saturating at zero.
pub open spec fn count_down(n: u64) -> u64 {
    if n == 0 {
        0
    } else {
        (n - 1) as u64
    }
}

/// The cache after a member joins: its user is written into the user table and, if
/// the guild is cached, the member is stored and counted.
pub open spec fn add_member(c: CacheView, m: MemberView) -> CacheView {
    let c1 = CacheView { users: c.users.insert(m.user.id, m.user), ..c };
    if c.guilds.contains_key(m.guild_id) {
        let g = c.guilds[m.guild_id];
        c1.with_guild(
            GuildView {
                member_count: count_up(g.member_count),
                members: g.members.insert(m.user.id, m),
                ..g
            },
        )
    } else {
        c1
    }
}

/// The cache after a member leaves a cached guild: uncounted and removed.
pub open spec fn remove_member(c: CacheView, gid: GuildId, uid: UserId) -> CacheView {
    if c.guilds.contains_key(gid) {
        let g = c.guilds[gid];
        c.with_guild(
            GuildView {
                member_count: count_down(g.member_count),
                members: g.members.remove(uid),
                ..g
            },
        )
    } else {
        c
    }
}

/// A member with the fields that a member-updated event carries set; its guild,
/// permissions and flags are kept.
pub open spec fn patched_member(m: MemberView, e: GuildMemberUpdateEvent) -> MemberView {
    MemberView {
        joined_at: Some(e.joined_at),
        nick: e.nick,
        roles: e.roles@,
        user: e.user,
        pending: e.pending,
        premium_since: e.premium_since,
        deaf: e.deaf,
        mute: e.mute,
        avatar: e.avatar,
        communication_disabled_until: e.communication_disabled_until,
        unusual_dm_activity_until: e.unusual_dm_activity_until,
        ..m
    }
}

/// The member built from a member-updated event alone, for a member not yet cached.
pub open spec fn synthesized_member(e: GuildMemberUpdateEvent) -> MemberView {
    MemberView {
        user: e.user,
        guild_id: e.guild_id,
        nick: e.nick,
        roles: e.roles@,
        joined_at: Some(e.joined_at),
        premium_since: e.premium_since,
        deaf: false,
        mute: false,
        pending: e.pending,
        avatar: e.avatar,
        permissions: None,
        communication_disabled_until: e.communication_disabled_until,
        unusual_dm_activity_until: e.unusual_dm_activity_until,
        flags: 0,
    }
}

/// What a member-updated event leaves stored for its user in a cached guild.
pub open spec fn member_after_update(g: GuildView, e: GuildMemberUpdateEvent) -> MemberView {
    if g.members.contains_key(e.user.id) {
        patched_member(g.members[e.user.id], e)
    } else {
        synthesized_member(e)
    }
}

/// The cache after a member-updated event: the user is written into the user table,
/// and in a cached guild the member is patched, or built if it was not cached.
pub open spec fn update_member(c: CacheView, e: GuildMemberUpdateEvent) -> CacheView {
    let c1 = CacheView { users: c.users.insert(e.user.id, e.user), ..c };
    if c.guilds.contains_key(e.guild_id) {
        let g = c.guilds[e.guild_id];
        c1.with_guild(
            GuildView { members: g.members.insert(e.user.id, member_after_update(g, e)), ..g },
        )
    } else {
        c1
    }
}

impl Cache {
    /// Writes a user into the user table.
    pub(crate) fn update_user_entry(&mut self, user: &User)
        requires
            old(self).wf(),
        ensures
            final(self).wf(),
            final(self)@ == (CacheView { users: old(self)@.users.insert(user.id, *user), ..old(self)@ }),
    {
        self.users.insert(user.id, user.clone());
    }

    /// A cached user, by id.
    pub fn user(&self, id: UserId) -> (r: Option<&User>)
        ensures
            match r {
                Some(u) => self@.users.contains_key(id) && *u == self@.users[id],
                None => !self@.users.contains_key(id),
            },
    {
        self.users.get(&id)
    }
}

/// Viewing every member commutes with inserting one.
proof fn lemma_members_insert(m: Map<UserId, Member>, k: UserId, v: Member)
    ensures
        members_view(m.insert(k, v)) == members_view(m).insert(k, v@),
{
    assert(members_view(m.insert(k, v)) =~= members_view(m).insert(k, v@));
}

/// Viewing every member commutes with removing one.
proof fn lemma_members_remove(m: Map<UserId, Member>, k: UserId)
    ensures
        members_view(m.remove(k)) == members_view(m).remove(k),
{
    assert(members_view(m.remove(k)) =~= members_view(m).remove(k));
}

impl GuildMembersChunkEvent {
    /// Writes the members' users into the user table and stores the members.
    pub fn update(&mut self, cache: &mut Cache) -> (r: Option<()>)
        requires
            old(cache).wf(),
        ensures
            final(cache).wf(),
            merged_users(old(cache)@.users, members_view(old(self).members@), final(cache)@.users),
            final(cache)@ == add_members(
                old(cache)@,
                old(self).guild_id,
                members_view(old(self).members@),
                final(cache)@.users,
            ),
            *final(self) == *old(self),
            r.is_none(),
    {
        cache.merge_member_users(&self.members);
        if let Some(mut g) = cache.take_guild(self.guild_id) {
            let ghost g0 = g@;
            let keys = keys_of(&self.members);
            let ghost chunk = members_view(self.members@);
            let mut i: usize = 0;
            while i < keys.len()
                invariant
                    i <= keys@.len(),
                    keys@.to_set() == self.members@.dom(),
                    chunk == members_view(self.members@),
                    g@ == (GuildView { members: g@.members, ..g0 }),
                    g@.members == g0.members.union_prefer_right(
                        chunk.restrict(keys@.subrange(0, i as int).to_set()),
                    ),
                decreases keys@.len() - i,
            {
                let k = keys[i];
                proof {
                    assert(keys@.to_set().contains(k));
                }
                match self.members.get(&k) {
                    Some(m) => {
                        let c = m.clone();
                        proof {
                            lemma_members_insert(g.members@, k, c);
                            assert(chunk[k] == c@);
                        }
                        g.members.insert(k, c);
                        proof {
                            let a = keys@.subrange(0, i as int);
                            let b = keys@.subrange(0, i + 1);
                            assert(b.to_set() =~= a.to_set().insert(k)) by {
                                assert forall|x: u64| b.to_set().contains(x) <==> a.to_set().insert(k).contains(x) by {
                                    if b.to_set().contains(x) {
                                        let j = choose|j: int| 0 <= j < b.len() && b[j] == x;
                                        if j < i {
                                            assert(a[j] == x);
                                        }
                                    }
                                    if a.to_set().contains(x) {
                                        let j = choose|j: int| 0 <= j < a.len() && a[j] == x;
                                        assert(b[j] == x);
                                    }
                                    if x == k {
                                        assert(b[i as int] == x);
                                    }
                                }
                            };
                            assert(g@.members =~= g0.members.union_prefer_right(chunk.restrict(b.to_set())));
                        }
                    },
                    None => {
                        proof {
                            assert(false);
                        }
                    },
                }
                i = i + 1;
            }
            proof {
                assert(keys@.subrange(0, i as int) =~= keys@);
                assert(chunk.restrict(keys@.to_set()) =~= chunk);
            }
            cache.put_guild(g);
            proof {
                let c2 = add_members(old(cache)@, self.guild_id, chunk, cache@.users);
                assert(cache@.guilds =~= c2.guilds);
            }
        }
        None
    }
}

impl PresenceUpdateEvent {
    /// Writes the presence's user into the user table and fills the presence's user
    /// from it; in a cached guild stores or drops the presence and gives a user with
    /// no member a placeholder one.
    pub fn update(&mut self, cache: &mut Cache) -> (r: Option<()>)
        requires
            old(cache).wf(),
        ensures
            final(cache).wf(),
            final(cache)@ == apply_presence(old(cache)@, old(self).presence),
            final(self).presence == normalized_presence(
                presence_users(old(cache)@, old(self).presence),
                old(self).presence,
            ),
            r.is_none(),
    {
        if let Some(user) = self.presence.user.to_user() {
            cache.update_user_entry(&user);
        }
        if let Some(user) = cache.user(self.presence.user.id) {
            self.presence.user.update_with_user(user);
        }
        let uid = self.presence.user.id;
        let gid = match self.presence.guild_id {
            Some(gid) => gid,
            None => {
                return None;
            },
        };
        let mut g = match cache.take_guild(gid) {
            Some(g) => g,
            None => {
                return None;
            },
        };
        if self.presence.status == OnlineStatus::Offline {
            g.presences.remove(&uid);
        } else {
            g.presences.insert(uid, self.presence.clone());
        }
        if let Some(user) = self.presence.user.to_user() {
            if !g.members.contains_key(&uid) {
                let member = Member {
                    deaf: false,
                    guild_id: gid,
                    joined_at: None,
                    mute: false,
                    nick: None,
                    user,
                    roles: Vec::new(),
                    pending: false,
                    premium_since: None,
                    permissions: None,
                    avatar: None,
                    communication_disabled_until: None,
                    flags: 0,
                    unusual_dm_activity_until: None,
                };
                proof {
                    assert(member@.roles =~= Seq::<RoleId>::empty());
                    lemma_members_insert(g.members@, uid, member);
                }
                g.members.insert(uid, member);
            }
        }
        cache.put_guild(g);
        proof {
            let c2 = apply_presence(old(cache)@, old(self).presence);
            assert(cache@.guilds =~= c2.guilds);
        }
        None
    }
}

impl VoiceStateUpdateEvent {
    /// In a cached guild stores the sent member, and stores or drops the voice state;
    /// returns the voice state it replaced or dropped.
    pub fn update(&mut self, cache: &mut Cache) -> (r: Option<VoiceState>)
        requires
            old(cache).wf(),
        ensures
            final(cache).wf(),
            final(cache)@ == apply_voice_state(
                old(cache)@,
                old(self).voice_state,
                opt_member_view(old(self).member),
            ),
            r == replaced_voice_state(old(cache)@, old(self).voice_state),
            *final(self) == *old(self),
    {
        let gid = match self.voice_state.guild_id {
            Some(gid) => gid,
            None => {
                return None;
            },
        };
        let mut g = match cache.take_guild(gid) {
            Some(g) => g,
            None => {
                return None;
            },
        };
        if let Some(member) = &self.member {
            let c = member.clone();
            proof {
                lemma_members_insert(g.members@, member.user.id, c);
            }
            g.members.insert(member.user.id, c);
        }
        let r = if self.voice_state.channel_id.is_some() {
            g.voice_states.insert(self.voice_state.user_id, self.voice_state.clone())
        } else {
            g.voice_states.remove(&self.voice_state.user_id)
        };
        cache.put_guild(g);
        proof {
            let c2 = apply_voice_state(
                old(cache)@,
                self.voice_state,
                opt_member_view(self.member),
            );
            assert(cache@.guilds =~= c2.guilds);
        }
        r
    }
}

impl GuildMemberAddEvent {
    /// Writes the member's user into the user table, then stores and counts the member.
    pub fn update(&mut self, cache: &mut Cache) -> (r: Option<()>)
        requires
            old(cache).wf(),
        ensures
            final(cache).wf(),
            final(cache)@ == add_member(old(cache)@, old(self).member@),
            final(self).member@ == old(self).member@,
            r.is_none(),
    {
        let user_id = self.member.user.id;
        cache.update_user_entry(&self.member.user);
        if let Some(u) = cache.user(user_id) {
            self.member.user = u.clone();
        }
        if let Some(mut g) = cache.take_guild(self.member.guild_id) {
            let ghost g0 = g@;
            g.member_count = g.member_count.saturating_add(1);
            proof {
                lemma_members_insert(g.members@, user_id, self.member);
            }
            g.members.insert(user_id, self.member.clone());
            proof {
                assert(g@.members == g0.members.insert(user_id, self.member@));
                assert(g@ == GuildView {
                    member_count: count_up(g0.member_count),
                    members: g0.members.insert(user_id, self.member@),
                    ..g0
                });
            }
            cache.put_guild(g);
            proof {
                let c2 = add_member(old(cache)@, old(self).member@);
                assert(cache@.guilds =~= c2.guilds);
            }
        }
        None
    }
}

impl GuildMemberRemoveEvent {
    /// Uncounts and removes the member; returns it.
    pub fn update(&mut self, cache: &mut Cache) -> (r: Option<Member>)
        requires
            old(cache).wf(),
        ensures
            final(cache).wf(),
            final(cache)@ == remove_member(old(cache)@, old(self).guild_id, old(self).user.id),
            *final(self) == *old(self),
            match r {
                Some(m) => old(cache)@.guilds.contains_key(old(self).guild_id)
                    && old(cache)@.guilds[old(self).guild_id].members.contains_key(old(self).user.id)
                    && m@ == old(cache)@.guilds[old(self).guild_id].members[old(self).user.id],
                None => !(old(cache)@.guilds.contains_key(old(self).guild_id)
                    && old(cache)@.guilds[old(self).guild_id].members.contains_key(old(self).user.id)),
            },
    {
        let mut g = match cache.take_guild(self.guild_id) {
            Some(g) => g,
            None => {
                return None;
            },
        };
        g.member_count = g.member_count.saturating_sub(1);
        proof {
            lemma_members_remove(g.members@, self.user.id);
        }
        let r = g.members.remove(&self.user.id);
        cache.put_guild(g);
        proof {
            let c1 = remove_member(old(cache)@, self.guild_id, self.user.id);
            assert(cache@.guilds =~= c1.guilds);
        }
        r
    }
}

impl GuildMemberUpdateEvent {
    /// Writes the user into the user table; in a cached guild patches the member, or
    /// builds it if it was not cached. Returns the member as it was, or the one built.
    pub fn update(&mut self, cache: &mut Cache) -> (r: Option<Member>)
        requires
            old(cache).wf(),
        ensures
            final(cache).wf(),
            final(cache)@ == update_member(old(cache)@, *old(self)),
            *final(self) == *old(self),
            match r {
                Some(m) => {
                    let g = old(cache)@.guilds[old(self).guild_id];
                    &&& old(cache)@.guilds.contains_key(old(self).guild_id)
                    &&& m@ == (if g.members.contains_key(old(self).user.id) {
                        g.members[old(self).user.id]
                    } else {
                        synthesized_member(*old(self))
                    })
                },
                None => !old(cache)@.guilds.contains_key(old(self).guild_id),
            },
    {
        cache.update_user_entry(&self.user);
        let mut g = match cache.take_guild(self.guild_id) {
            Some(g) => g,
            None => {
                return None;
            },
        };
        let ghost g0 = g@;
        let uid = self.user.id;
        proof {
            lemma_members_remove(g.members@, uid);
        }
        let r = match g.members.remove(&uid) {
            Some(mut member) => {
                let item = member.clone();
                member.joined_at = Some(self.joined_at);
                member.nick = clone_opt_string(&self.nick);
                member.roles = clone_ids(&self.roles);
                member.user = self.user.clone();
                member.pending = self.pending;
                member.premium_since = self.premium_since;
                member.deaf = self.deaf;
                member.mute = self.mute;
                member.avatar = clone_opt_string(&self.avatar);
                member.communication_disabled_until = self.communication_disabled_until;
                member.unusual_dm_activity_until = self.unusual_dm_activity_until;
                proof {
                    assert(member@ == patched_member(g0.members[uid], *self));
                    lemma_members_insert(g.members@, uid, member);
                }
                g.members.insert(uid, member);
                item
            },
            None => {
                let member = Member {
                    deaf: false,
                    guild_id: self.guild_id,
                    joined_at: Some(self.joined_at),
                    mute: false,
                    nick: clone_opt_string(&self.nick),
                    roles: clone_ids(&self.roles),
                    user: self.user.clone(),
                    pending: self.pending,
                    premium_since: self.premium_since,
                    permissions: None,
                    avatar: clone_opt_string(&self.avatar),
                    communication_disabled_until: self.communication_disabled_until,
                    flags: 0,
                    unusual_dm_activity_until: self.unusual_dm_activity_until,
                };
                let item = member.clone();
                proof {
                    assert(member@ == synthesized_member(*self));
                    lemma_members_insert(g.members@, uid, member);
                }
                g.members.insert(uid, member);
                item
            },
        };
        proof {
            assert(g@.members =~= g0.members.insert(uid, member_after_update(g0, *self)));
        }
        cache.put_guild(g);
        proof {
            let c1 = update_member(old(cache)@, *self);
            assert(cache@.guilds =~= c1.guilds);
        }
        Some(r)
    }
}

} // verus!
