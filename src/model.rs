//! Entity records held by the cache.

use vstd::prelude::*;

verus! {

pub type GuildId = u64;
pub type ChannelId = u64;
pub type UserId = u64;
pub type MessageId = u64;
pub type RoleId = u64;
pub type EmojiId = u64;
pub type StickerId = u64;
pub type ShardId = u32;

/// Clones an optional string; the copy is equal to it.
pub fn clone_opt_string(s: &Option<String>) -> (r: Option<String>)
    ensures
        r == *s,
{
    match s {
        Some(v) => Some(v.clone()),
        None => None,
    }
}

/// A user account, independent of any guild.
#[derive(Debug)]
pub struct User {
    pub id: UserId,
    pub name: String,
    pub avatar: Option<String>,
    pub bot: bool,
}

impl Clone for User {
    fn clone(&self) -> (r: Self)
        ensures
            r == *self,
    {
        User {
            id: self.id,
            name: self.name.clone(),
            avatar: clone_opt_string(&self.avatar),
            bot: self.bot,
        }
    }
}


/// The identity the client is logged in as.
pub type CurrentUser = User;

/// A channel of a guild, or a thread.
#[derive(Debug)]
pub struct Channel {
    pub id: ChannelId,
    pub guild_id: GuildId,
    pub name: String,
    pub kind: u8,
    pub position: u32,
    pub topic: Option<String>,
    pub last_message_id: Option<MessageId>,
    pub last_pin_timestamp: Option<i64>,
    /// The status text of a voice channel.
    pub status: Option<String>,
}

impl Clone for Channel {
    fn clone(&self) -> (r: Self)
        ensures
            r == *self,
    {
        Channel {
            id: self.id,
            guild_id: self.guild_id,
            name: self.name.clone(),
            kind: self.kind,
            position: self.position,
            topic: clone_opt_string(&self.topic),
            last_message_id: self.last_message_id,
            last_pin_timestamp: self.last_pin_timestamp,
            status: clone_opt_string(&self.status),
        }
    }
}

/// A message posted in a channel. Timestamps are milliseconds since the Unix epoch.
#[derive(Debug)]
pub struct Message {
    pub id: MessageId,
    pub channel_id: ChannelId,
    pub guild_id: Option<GuildId>,
    pub author: User,
    pub content: String,
    pub timestamp: i64,
    pub edited_timestamp: Option<i64>,
    pub pinned: bool,
    pub tts: bool,
}

impl Clone for Message {
    fn clone(&self) -> (r: Self)
        ensures
            r == *self,
    {
        Message {
            id: self.id,
            channel_id: self.channel_id,
            guild_id: self.guild_id,
            author: self.author.clone(),
            content: self.content.clone(),
            timestamp: self.timestamp,
            edited_timestamp: self.edited_timestamp,
            pinned: self.pinned,
            tts: self.tts,
        }
    }
}

/// A role of a guild.
#[derive(Debug)]
pub struct Role {
    pub id: RoleId,
    pub guild_id: GuildId,
    pub name: String,
    pub colour: u32,
    pub position: u16,
    pub permissions: u64,
    pub hoist: bool,
    pub mentionable: bool,
}

impl Clone for Role {
    fn clone(&self) -> (r: Self)
        ensures
            r == *self,
    {
        Role {
            id: self.id,
            guild_id: self.guild_id,
            name: self.name.clone(),
            colour: self.colour,
            position: self.position,
            permissions: self.permissions,
            hoist: self.hoist,
            mentionable: self.mentionable,
        }
    }
}

/// A custom emoji of a guild.
#[derive(Debug)]
pub struct Emoji {
    pub id: EmojiId,
    pub name: String,
    pub animated: bool,
}

impl Clone for Emoji {
    fn clone(&self) -> (r: Self)
        ensures
            r == *self,
    {
        Emoji { id: self.id, name: self.name.clone(), animated: self.animated }
    }
}

/// A sticker of a guild.
#[derive(Debug)]
pub struct Sticker {
    pub id: StickerId,
    pub name: String,
    pub description: Option<String>,
}

impl Clone for Sticker {
    fn clone(&self) -> (r: Self)
        ensures
            r == *self,
    {
        Sticker {
            id: self.id,
            name: self.name.clone(),
            description: clone_opt_string(&self.description),
        }
    }
}

/// Whether a user is connected, and how.
#[derive(Clone, Copy, Debug, PartialEq, Eq, Structural)]
pub enum OnlineStatus {
    DoNotDisturb,
    Idle,
    Invisible,
    Offline,
    Online,
}

/// The user of a presence: only `id` is always sent, the rest when it changed.
#[derive(Debug)]
pub struct PresenceUser {
    pub id: UserId,
    pub name: Option<String>,
    pub avatar: Option<String>,
    pub bot: Option<bool>,
}

impl Clone for PresenceUser {
    fn clone(&self) -> (r: Self)
        ensures
            r == *self,
    {
        PresenceUser {
            id: self.id,
            name: clone_opt_string(&self.name),
            avatar: clone_opt_string(&self.avatar),
            bot: self.bot,
        }
    }
}

/// The full user that a presence's user stands for, when the payload names one.
pub open spec fn presence_user_spec(p: PresenceUser) -> Option<User> {
    match p.name {
        Some(name) => Some(
            User { id: p.id, name: name, avatar: p.avatar, bot: p.bot.unwrap_or(false) },
        ),
        None => None,
    }
}

impl PresenceUser {
    /// The full user, when the payload carries a name.
    pub fn to_user(&self) -> (r: Option<User>)
        ensures
            r == presence_user_spec(*self),
    {
        match &self.name {
            Some(name) => Some(
                User {
                    id: self.id,
                    name: name.clone(),
                    avatar: clone_opt_string(&self.avatar),
                    bot: match self.bot {
                        Some(b) => b,
                        None => false,
                    },
                },
            ),
            None => None,
        }
    }

    /// Fills every field from a full user of the same account.
    pub fn update_with_user(&mut self, user: &User)
        ensures
            *final(self) == (PresenceUser {
                id: user.id,
                name: Some(user.name),
                avatar: user.avatar,
                bot: Some(user.bot),
            }),
    {
        self.id = user.id;
        self.name = Some(user.name.clone());
        self.avatar = clone_opt_string(&user.avatar);
        self.bot = Some(user.bot);
    }
}

/// What a user is doing, in one guild.
#[derive(Debug)]
pub struct Presence {
    pub user: PresenceUser,
    pub guild_id: Option<GuildId>,
    pub status: OnlineStatus,
}

impl Clone for Presence {
    fn clone(&self) -> (r: Self)
        ensures
            r == *self,
    {
        Presence { user: self.user.clone(), guild_id: self.guild_id, status: self.status }
    }
}

/// A user's connection to a voice channel.
#[derive(Debug)]
pub struct VoiceState {
    pub user_id: UserId,
    pub guild_id: Option<GuildId>,
    /// Absent once the user left voice.
    pub channel_id: Option<ChannelId>,
    pub session_id: String,
    pub deaf: bool,
    pub mute: bool,
    pub self_deaf: bool,
    pub self_mute: bool,
}

impl Clone for VoiceState {
    fn clone(&self) -> (r: Self)
        ensures
            r == *self,
    {
        VoiceState {
            user_id: self.user_id,
            guild_id: self.guild_id,
            channel_id: self.channel_id,
            session_id: self.session_id.clone(),
            deaf: self.deaf,
            mute: self.mute,
            self_deaf: self.self_deaf,
            self_mute: self.self_mute,
        }
    }
}

/// A user's membership of one guild.
#[derive(Debug)]
pub struct Member {
    pub user: User,
    pub guild_id: GuildId,
    pub nick: Option<String>,
    pub roles: Vec<RoleId>,
    pub joined_at: Option<i64>,
    pub premium_since: Option<i64>,
    pub deaf: bool,
    pub mute: bool,
    pub pending: bool,
    pub avatar: Option<String>,
    pub permissions: Option<u64>,
    pub communication_disabled_until: Option<i64>,
    pub unusual_dm_activity_until: Option<i64>,
    pub flags: u32,
}

/// A member as a value: its role list as a sequence.
pub ghost struct MemberView {
    pub user: User,
    pub guild_id: GuildId,
    pub nick: Option<String>,
    pub roles: Seq<RoleId>,
    pub joined_at: Option<i64>,
    pub premium_since: Option<i64>,
    pub deaf: bool,
    pub mute: bool,
    pub pending: bool,
    pub avatar: Option<String>,
    pub permissions: Option<u64>,
    pub communication_disabled_until: Option<i64>,
    pub unusual_dm_activity_until: Option<i64>,
    pub flags: u32,
}

impl View for Member {
    type V = MemberView;

    open spec fn view(&self) -> MemberView {
        MemberView {
            user: self.user,
            guild_id: self.guild_id,
            nick: self.nick,
            roles: self.roles@,
            joined_at: self.joined_at,
            premium_since: self.premium_since,
            deaf: self.deaf,
            mute: self.mute,
            pending: self.pending,
            avatar: self.avatar,
            permissions: self.permissions,
            communication_disabled_until: self.communication_disabled_until,
            unusual_dm_activity_until: self.unusual_dm_activity_until,
            flags: self.flags,
        }
    }
}

/// Copies a list of ids.
pub fn clone_ids(v: &Vec<u64>) -> (r: Vec<u64>)
    ensures
        r@ == v@,
{
    let mut r: Vec<u64> = Vec::new();
    let mut i: usize = 0;
    while i < v.len()
        invariant
            i <= v.len(),
            r@ == v@.subrange(0, i as int),
        decreases v.len() - i,
    {
        r.push(v[i]);
        i = i + 1;
    }
    r
}

impl Clone for Member {
    fn clone(&self) -> (r: Self)
        ensures
            r@ == self@,
    {
        Member {
            user: self.user.clone(),
            guild_id: self.guild_id,
            nick: clone_opt_string(&self.nick),
            roles: clone_ids(&self.roles),
            joined_at: self.joined_at,
            premium_since: self.premium_since,
            deaf: self.deaf,
            mute: self.mute,
            pending: self.pending,
            avatar: clone_opt_string(&self.avatar),
            permissions: self.permissions,
            communication_disabled_until: self.communication_disabled_until,
            unusual_dm_activity_until: self.unusual_dm_activity_until,
            flags: self.flags,
        }
    }
}

} // verus!
