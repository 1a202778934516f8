//! The guild record and its value as a mathematical object.

use std::collections::HashMap;
use vstd::prelude::*;

use crate::model::{
    clone_opt_string, Channel, ChannelId, Emoji, EmojiId, GuildId, Member, MemberView, Presence,
    Role, RoleId, Sticker, StickerId, UserId, VoiceState,
};

verus! {

/// Where idle voice users are moved, and after how many seconds.
#[derive(Clone, Copy, Debug)]
pub struct AfkMetadata {
    pub afk_channel_id: ChannelId,
    pub afk_timeout: u16,
}

/// The scalar settings of a guild that a guild-updated event may change.
#[derive(Debug)]
pub struct GuildInfo {
    pub name: String,
    pub icon: Option<String>,
    pub banner: Option<String>,
    pub splash: Option<String>,
    pub discovery_splash: Option<String>,
    pub vanity_url_code: Option<String>,
    /// The description shown on the guild's welcome screen.
    pub welcome_screen: Option<String>,
    pub owner_id: UserId,
    pub afk_metadata: Option<AfkMetadata>,
    pub default_message_notifications: u8,
    pub max_members: Option<u64>,
    pub max_presences: Option<u64>,
    pub max_video_channel_users: Option<u64>,
    pub mfa_level: u8,
    pub nsfw_level: u8,
    pub premium_subscription_count: Option<u64>,
    pub premium_tier: u8,
    pub public_updates_channel_id: Option<ChannelId>,
    pub rules_channel_id: Option<ChannelId>,
    pub system_channel_flags: u64,
    pub system_channel_id: Option<ChannelId>,
    pub verification_level: u8,
    pub widget_channel_id: Option<ChannelId>,
    pub widget_enabled: Option<bool>,
}

impl Clone for GuildInfo {
    fn clone(&self) -> (r: Self)
        ensures
            r == *self,
    {
        GuildInfo {
            name: self.name.clone(),
            icon: clone_opt_string(&self.icon),
            banner: clone_opt_string(&self.banner),
            splash: clone_opt_string(&self.splash),
            discovery_splash: clone_opt_string(&self.discovery_splash),
            vanity_url_code: clone_opt_string(&self.vanity_url_code),
            welcome_screen: clone_opt_string(&self.welcome_screen),
            owner_id: self.owner_id,
            afk_metadata: self.afk_metadata,
            default_message_notifications: self.default_message_notifications,
            max_members: self.max_members,
            max_presences: self.max_presences,
            max_video_channel_users: self.max_video_channel_users,
            mfa_level: self.mfa_level,
            nsfw_level: self.nsfw_level,
            premium_subscription_count: self.premium_subscription_count,
            premium_tier: self.premium_tier,
            public_updates_channel_id: self.public_updates_channel_id,
            rules_channel_id: self.rules_channel_id,
            system_channel_flags: self.system_channel_flags,
            system_channel_id: self.system_channel_id,
            verification_level: self.verification_level,
            widget_channel_id: self.widget_channel_id,
            widget_enabled: self.widget_enabled,
        }
    }
}

/// A guild with everything the cache keeps of it.
#[derive(Debug)]
pub struct Guild {
    pub id: GuildId,
    pub info: GuildInfo,
    pub features: Vec<String>,
    /// Counted up and down by member events; it may differ from the number of cached members.
    pub member_count: u64,
    pub channels: HashMap<ChannelId, Channel>,
    pub threads: Vec<Channel>,
    pub members: HashMap<UserId, Member>,
    pub roles: HashMap<RoleId, Role>,
    pub presences: HashMap<UserId, Presence>,
    pub voice_states: HashMap<UserId, VoiceState>,
    pub emojis: HashMap<EmojiId, Emoji>,
    pub stickers: HashMap<StickerId, Sticker>,
}

/// A guild as a value.
pub ghost struct GuildView {
    pub id: GuildId,
    pub info: GuildInfo,
    pub features: Seq<String>,
    pub member_count: u64,
    pub channels: Map<ChannelId, Channel>,
    pub threads: Seq<Channel>,
    pub members: Map<UserId, MemberView>,
    pub roles: Map<RoleId, Role>,
    pub presences: Map<UserId, Presence>,
    pub voice_states: Map<UserId, VoiceState>,
    pub emojis: Map<EmojiId, Emoji>,
    pub stickers: Map<StickerId, Sticker>,
}

/// The members of a map, each as a value.
pub open spec fn members_view(m: Map<UserId, Member>) -> Map<UserId, MemberView> {
    m.map_values(|x: Member| x@)
}

impl View for Guild {
    type V = GuildView;

    open spec fn view(&self) -> GuildView {
        GuildView {
            id: self.id,
            info: self.info,
            features: self.features@,
            member_count: self.member_count,
            channels: self.channels@,
            threads: self.threads@,
            members: members_view(self.members@),
            roles: self.roles@,
            presences: self.presences@,
            voice_states: self.voice_states@,
            emojis: self.emojis@,
            stickers: self.stickers@,
        }
    }
}

impl Clone for Guild {
    fn clone(&self) -> (r: Self)
        ensures
            r@ == self@,
    {
        let features = self.features.clone();
        let threads = self.threads.clone();
        proof {
            assert(features@ =~= self.features@);
            assert(threads@ =~= self.threads@);
        }
        Guild {
            id: self.id,
            info: self.info.clone(),
            features,
            member_count: self.member_count,
            channels: self.channels.clone(),
            threads,
            members: self.members.clone(),
            roles: self.roles.clone(),
            presences: self.presences.clone(),
            voice_states: self.voice_states.clone(),
            emojis: self.emojis.clone(),
            stickers: self.stickers.clone(),
        }
    }
}

} // verus!
