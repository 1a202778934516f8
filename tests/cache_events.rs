use std::collections::HashMap;

use serenity_cache::cache::Cache;
use serenity_cache::channel_events::{
    ChannelCreateEvent, ChannelDeleteEvent, ChannelPinsUpdateEvent, ChannelUpdateEvent,
    VoiceChannelStatusUpdateEvent,
};
use serenity_cache::guild::{Guild, GuildInfo};
use serenity_cache::guild_events::{
    GuildCreateEvent, GuildDeleteEvent, GuildRoleCreateEvent, GuildRoleDeleteEvent,
    GuildRoleUpdateEvent, GuildUpdateEvent, PartialGuild,
};
use serenity_cache::member_events::{
    GuildMemberAddEvent, GuildMemberRemoveEvent, GuildMemberUpdateEvent, GuildMembersChunkEvent,
    PresenceUpdateEvent, VoiceStateUpdateEvent,
};
use serenity_cache::message_events::{
    MessageCreateEvent, MessageDeleteBulkEvent, MessageDeleteEvent, MessageUpdateEvent,
};
use serenity_cache::model::{
    Channel, Member, Message, OnlineStatus, Presence, PresenceUser, Role, User, VoiceState,
};
use serenity_cache::session_events::{Ready, ReadyEvent, ShardInfo, UserUpdateEvent};
use serenity_cache::threads::{ThreadCreateEvent, ThreadDeleteEvent, ThreadUpdateEvent};

fn user(id: u64, name: &str) -> User {
    User { id, name: name.to_string(), avatar: None, bot: false }
}

fn channel(id: u64, guild_id: u64, name: &str) -> Channel {
    Channel {
        id,
        guild_id,
        name: name.to_string(),
        kind: 0,
        position: 0,
        topic: None,
        last_message_id: None,
        last_pin_timestamp: None,
        status: None,
    }
}

fn message(id: u64, channel_id: u64, guild_id: Option<u64>, timestamp: i64) -> Message {
    Message {
        id,
        channel_id,
        guild_id,
        author: user(7, "author"),
        content: format!("message {id}"),
        timestamp,
        edited_timestamp: None,
        pinned: false,
        tts: false,
    }
}

fn info(name: &str) -> GuildInfo {
    GuildInfo {
        name: name.to_string(),
        icon: Some("icon".to_string()),
        banner: None,
        splash: None,
        discovery_splash: None,
        vanity_url_code: None,
        welcome_screen: None,
        owner_id: 1,
        afk_metadata: None,
        default_message_notifications: 0,
        max_members: Some(100),
        max_presences: None,
        max_video_channel_users: None,
        mfa_level: 0,
        nsfw_level: 0,
        premium_subscription_count: None,
        premium_tier: 0,
        public_updates_channel_id: None,
        rules_channel_id: None,
        system_channel_flags: 0,
        system_channel_id: None,
        verification_level: 2,
        widget_channel_id: None,
        widget_enabled: None,
    }
}

fn role(id: u64, guild_id: u64, name: &str) -> Role {
    Role {
        id,
        guild_id,
        name: name.to_string(),
        colour: 0,
        position: 0,
        permissions: 0,
        hoist: false,
        mentionable: false,
    }
}

fn member(user_id: u64, guild_id: u64) -> Member {
    Member {
        user: user(user_id, "member"),
        guild_id,
        nick: Some("nick".to_string()),
        roles: vec![3],
        joined_at: Some(10),
        premium_since: None,
        deaf: false,
        mute: false,
        pending: false,
        avatar: None,
        permissions: Some(8),
        communication_disabled_until: None,
        unusual_dm_activity_until: None,
        flags: 5,
    }
}

fn guild(id: u64, channel_ids: &[u64]) -> Guild {
    let mut channels = HashMap::new();
    for c in channel_ids {
        channels.insert(*c, channel(*c, id, "general"));
    }
    let mut roles = HashMap::new();
    roles.insert(3, role(3, id, "mod"));
    Guild {
        id,
        info: info("guild"),
        features: vec!["COMMUNITY".to_string()],
        member_count: 0,
        channels,
        threads: Vec::new(),
        members: HashMap::new(),
        roles,
        presences: HashMap::new(),
        voice_states: HashMap::new(),
        emojis: HashMap::new(),
        stickers: HashMap::new(),
    }
}

fn cache_with_guild(max: usize, g: Guild) -> Cache {
    let mut cache = Cache::new(max, user(1, "bot"));
    GuildCreateEvent { guild: g }.update(&mut cache);
    cache
}

fn create(cache: &mut Cache, m: Message) -> Option<Message> {
    MessageCreateEvent { message: m }.update(cache)
}

#[test]
fn fifo_scenario_keeps_two_newest() {
    let mut cache = Cache::new(2, user(1, "bot"));
    assert!(create(&mut cache, message(1, 50, None, 100)).is_none());
    assert!(create(&mut cache, message(2, 50, None, 200)).is_none());
    let evicted = create(&mut cache, message(3, 50, None, 300));
    assert_eq!(evicted.map(|m| m.id), Some(1));
    assert_eq!(cache.message_ids(50), vec![2, 3]);
    assert_eq!(cache.message_count(50), 2);
    assert!(cache.message(50, 1).is_none());
    assert!(cache.message(50, 2).is_some());
    assert!(cache.message(50, 3).is_some());
}

#[test]
fn fifo_law_long_run_never_exceeds_cap() {
    let mut cache = Cache::new(3, user(1, "bot"));
    let mut evicted = Vec::new();
    for id in 1..=10u64 {
        if let Some(m) = create(&mut cache, message(id, 9, None, id as i64)) {
            evicted.push(m.id);
        }
        assert!(cache.message_count(9) <= 3);
    }
    assert_eq!(evicted, vec![1, 2, 3, 4, 5, 6, 7]);
    assert_eq!(cache.message_ids(9), vec![8, 9, 10]);
}

#[test]
fn zero_cap_caches_nothing() {
    let mut cache = Cache::new(0, user(1, "bot"));
    assert!(create(&mut cache, message(1, 50, None, 100)).is_none());
    assert_eq!(cache.message_count(50), 0);
    assert!(cache.message(50, 1).is_none());
}

#[test]
fn same_message_twice_is_replaced_in_place() {
    let mut cache = Cache::new(2, user(1, "bot"));
    create(&mut cache, message(1, 50, None, 100));
    let mut again = message(1, 50, None, 100);
    again.content = "edited".to_string();
    assert!(create(&mut cache, again).is_none());
    assert_eq!(cache.message_ids(50), vec![1]);
    assert_eq!(cache.message(50, 1).unwrap().content, "edited");
}

#[test]
fn channel_delete_returns_all_messages() {
    let mut cache = cache_with_guild(10, guild(100, &[50]));
    for id in 1..=5u64 {
        create(&mut cache, message(id, 50, Some(100), id as i64));
    }
    let removed = ChannelDeleteEvent { channel: channel(50, 100, "general") }.update(&mut cache);
    let ids: Vec<u64> = removed.unwrap().iter().map(|m| m.id).collect();
    assert_eq!(ids, vec![1, 2, 3, 4, 5]);
    assert!(cache.channel_guild(50).is_none());
    assert!(cache.channel(50).is_none());
    assert_eq!(cache.message_count(50), 0);
    assert!(cache.message_ids(50).is_empty());
    assert!(!cache.guild(100).unwrap().channels.contains_key(&50));
}

#[test]
fn channel_delete_without_messages_returns_none() {
    let mut cache = cache_with_guild(10, guild(100, &[50]));
    let removed = ChannelDeleteEvent { channel: channel(50, 100, "general") }.update(&mut cache);
    assert!(removed.is_none());
    assert!(cache.channel_guild(50).is_none());
}

#[test]
fn channel_update_twice_is_idempotent() {
    let mut cache = cache_with_guild(10, guild(100, &[50]));
    let mut renamed = channel(50, 100, "renamed");
    renamed.topic = Some("topic".to_string());
    let first = ChannelUpdateEvent { channel: renamed.clone() }.update(&mut cache);
    assert_eq!(first.unwrap().name, "general");
    let second = ChannelUpdateEvent { channel: renamed.clone() }.update(&mut cache);
    let second = second.unwrap();
    assert_eq!(second.name, "renamed");
    assert_eq!(second.topic, Some("topic".to_string()));
    assert_eq!(cache.channel(50).unwrap().name, "renamed");
    assert_eq!(cache.channel_guild(50), Some(100));
}

#[test]
fn channel_create_in_unknown_guild_only_indexes() {
    let mut cache = Cache::new(10, user(1, "bot"));
    let old = ChannelCreateEvent { channel: channel(60, 200, "x") }.update(&mut cache);
    assert!(old.is_none());
    assert_eq!(cache.channel_guild(60), Some(200));
    assert!(cache.channel(60).is_none());
}

#[test]
fn pins_update_patches_only_pin_time() {
    let mut cache = cache_with_guild(10, guild(100, &[50]));
    ChannelPinsUpdateEvent { guild_id: Some(100), channel_id: 50, last_pin_timestamp: Some(77) }
        .update(&mut cache);
    let ch = cache.channel(50).unwrap();
    assert_eq!(ch.last_pin_timestamp, Some(77));
    assert_eq!(ch.name, "general");
}

#[test]
fn voice_channel_status_returns_previous() {
    let mut cache = cache_with_guild(10, guild(100, &[50]));
    let mut ev = VoiceChannelStatusUpdateEvent { guild_id: 100, id: 50, status: Some("live".to_string()) };
    assert!(ev.update(&mut cache).is_none());
    let mut ev = VoiceChannelStatusUpdateEvent { guild_id: 100, id: 50, status: None };
    assert_eq!(ev.update(&mut cache), Some("live".to_string()));
    assert!(cache.channel(50).unwrap().status.is_none());
}

#[test]
fn outage_then_recovery_restores_guild_and_index() {
    let mut cache = cache_with_guild(10, guild(100, &[50, 51]));
    create(&mut cache, message(1, 50, Some(100), 1));
    let gone = GuildDeleteEvent { id: 100, unavailable: true }.update(&mut cache);
    assert!(gone.is_none());
    assert!(cache.guild(100).is_none());
    assert!(cache.is_unavailable(100));
    assert_eq!(cache.message_count(50), 1);
    GuildCreateEvent { guild: guild(100, &[50, 51]) }.update(&mut cache);
    assert!(cache.guild(100).is_some());
    assert!(!cache.is_unavailable(100));
    assert_eq!(cache.channel_guild(50), Some(100));
    assert_eq!(cache.channel_guild(51), Some(100));
}

#[test]
fn guild_removal_purges_channels_and_messages() {
    let mut cache = cache_with_guild(10, guild(100, &[50, 51]));
    create(&mut cache, message(1, 50, Some(100), 1));
    create(&mut cache, message(2, 51, Some(100), 2));
    let gone = GuildDeleteEvent { id: 100, unavailable: false }.update(&mut cache);
    assert_eq!(gone.unwrap().id, 100);
    assert!(cache.guild(100).is_none());
    assert!(!cache.is_unavailable(100));
    assert!(cache.channel_guild(50).is_none());
    assert!(cache.channel_guild(51).is_none());
    assert_eq!(cache.message_count(50), 0);
    assert_eq!(cache.message_count(51), 0);
}

#[test]
fn guild_update_of_name_keeps_everything_else() {
    let mut cache = cache_with_guild(10, guild(100, &[50]));
    let before = cache.guild(100).unwrap().clone();
    let mut roles = HashMap::new();
    roles.insert(3, role(3, 100, "mod"));
    let mut ev = GuildUpdateEvent {
        guild: PartialGuild { id: 100, info: info("renamed"), features: vec!["COMMUNITY".to_string()], roles },
    };
    assert!(ev.update(&mut cache).is_none());
    let after = cache.guild(100).unwrap();
    assert_eq!(after.info.name, "renamed");
    assert_eq!(after.info.icon, before.info.icon);
    assert_eq!(after.info.verification_level, before.info.verification_level);
    assert_eq!(after.info.max_members, before.info.max_members);
    assert_eq!(after.features, before.features);
    assert_eq!(after.roles.len(), 1);
    assert_eq!(after.roles[&3].name, "mod");
    assert_eq!(after.channels.len(), before.channels.len());
    assert_eq!(after.member_count, before.member_count);
}

#[test]
fn guild_create_writes_member_users() {
    let mut g = guild(100, &[]);
    g.members.insert(20, member(20, 100));
    let cache = cache_with_guild(10, g);
    assert_eq!(cache.user(20).unwrap().name, "member");
}

#[test]
fn member_add_and_remove_count() {
    let mut cache = cache_with_guild(10, guild(100, &[]));
    GuildMemberAddEvent { member: member(20, 100) }.update(&mut cache);
    assert_eq!(cache.guild(100).unwrap().member_count, 1);
    assert!(cache.user(20).is_some());
    let removed = GuildMemberRemoveEvent { guild_id: 100, user: user(20, "member") }.update(&mut cache);
    assert_eq!(removed.unwrap().user.id, 20);
    assert_eq!(cache.guild(100).unwrap().member_count, 0);
    let again = GuildMemberRemoveEvent { guild_id: 100, user: user(20, "member") }.update(&mut cache);
    assert!(again.is_none());
    assert_eq!(cache.guild(100).unwrap().member_count, 0);
}

fn member_update(user_id: u64) -> GuildMemberUpdateEvent {
    GuildMemberUpdateEvent {
        guild_id: 100,
        user: user(user_id, "fresh"),
        nick: Some("new nick".to_string()),
        roles: vec![3, 4],
        joined_at: 99,
        premium_since: None,
        deaf: true,
        mute: false,
        pending: false,
        avatar: None,
        communication_disabled_until: None,
        unusual_dm_activity_until: None,
    }
}

#[test]
fn member_patch_keeps_absent_fields() {
    let mut cache = cache_with_guild(10, guild(100, &[]));
    GuildMemberAddEvent { member: member(20, 100) }.update(&mut cache);
    let old = member_update(20).update(&mut cache).unwrap();
    assert_eq!(old.nick, Some("nick".to_string()));
    let now = &cache.guild(100).unwrap().members[&20];
    assert_eq!(now.nick, Some("new nick".to_string()));
    assert_eq!(now.roles, vec![3, 4]);
    assert_eq!(now.joined_at, Some(99));
    assert!(now.deaf);
    assert_eq!(now.permissions, Some(8));
    assert_eq!(now.flags, 5);
    assert_eq!(now.guild_id, 100);
    assert_eq!(cache.user(20).unwrap().name, "fresh");
}

#[test]
fn member_update_synthesizes_unknown_member() {
    let mut cache = cache_with_guild(10, guild(100, &[]));
    let made = member_update(30).update(&mut cache).unwrap();
    assert_eq!(made.user.id, 30);
    assert_eq!(made.permissions, None);
    assert!(!made.deaf);
    assert_eq!(made.flags, 0);
    assert_eq!(cache.guild(100).unwrap().members[&30].nick, Some("new nick".to_string()));
}

#[test]
fn members_chunk_stores_members() {
    let mut cache = cache_with_guild(10, guild(100, &[]));
    let mut members = HashMap::new();
    members.insert(20, member(20, 100));
    members.insert(21, member(21, 100));
    GuildMembersChunkEvent { guild_id: 100, members }.update(&mut cache);
    assert_eq!(cache.guild(100).unwrap().members.len(), 2);
    assert!(cache.user(21).is_some());
}

fn presence(user_id: u64, name: Option<&str>, status: OnlineStatus) -> Presence {
    Presence {
        user: PresenceUser { id: user_id, name: name.map(|s| s.to_string()), avatar: None, bot: None },
        guild_id: Some(100),
        status,
    }
}

#[test]
fn presence_offline_removes_and_online_upserts() {
    let mut cache = cache_with_guild(10, guild(100, &[]));
    PresenceUpdateEvent { presence: presence(40, Some("p"), OnlineStatus::Online) }.update(&mut cache);
    assert!(cache.guild(100).unwrap().presences.contains_key(&40));
    PresenceUpdateEvent { presence: presence(40, None, OnlineStatus::Offline) }.update(&mut cache);
    assert!(!cache.guild(100).unwrap().presences.contains_key(&40));
    PresenceUpdateEvent { presence: presence(40, None, OnlineStatus::Idle) }.update(&mut cache);
    assert_eq!(cache.guild(100).unwrap().presences[&40].status, OnlineStatus::Idle);
}

#[test]
fn presence_of_unknown_user_synthesizes_member() {
    let mut cache = cache_with_guild(10, guild(100, &[]));
    let mut ev = PresenceUpdateEvent { presence: presence(41, Some("newcomer"), OnlineStatus::Online) };
    ev.update(&mut cache);
    let m = &cache.guild(100).unwrap().members[&41];
    assert_eq!(m.user.name, "newcomer");
    assert!(m.roles.is_empty());
    assert_eq!(m.joined_at, None);
    assert_eq!(ev.presence.user.bot, Some(false));
}

#[test]
fn voice_state_join_and_leave() {
    let mut cache = cache_with_guild(10, guild(100, &[]));
    let vs = VoiceState {
        user_id: 20,
        guild_id: Some(100),
        channel_id: Some(50),
        session_id: "s".to_string(),
        deaf: false,
        mute: false,
        self_deaf: false,
        self_mute: false,
    };
    let mut join = VoiceStateUpdateEvent { voice_state: vs.clone(), member: Some(member(20, 100)) };
    assert!(join.update(&mut cache).is_none());
    assert!(cache.guild(100).unwrap().members.contains_key(&20));
    let mut left = vs.clone();
    left.channel_id = None;
    let old = VoiceStateUpdateEvent { voice_state: left, member: None }.update(&mut cache);
    assert_eq!(old.unwrap().channel_id, Some(50));
    assert!(!cache.guild(100).unwrap().voice_states.contains_key(&20));
}

#[test]
fn roles_create_update_delete() {
    let mut cache = cache_with_guild(10, guild(100, &[]));
    GuildRoleCreateEvent { role: role(5, 100, "new") }.update(&mut cache);
    let old = GuildRoleUpdateEvent { role: role(5, 100, "renamed") }.update(&mut cache);
    assert_eq!(old.unwrap().name, "new");
    assert!(GuildRoleUpdateEvent { role: role(6, 100, "ghost") }.update(&mut cache).is_none());
    assert!(!cache.guild(100).unwrap().roles.contains_key(&6));
    let gone = GuildRoleDeleteEvent { guild_id: 100, role_id: 5 }.update(&mut cache);
    assert_eq!(gone.unwrap().name, "renamed");
}

#[test]
fn message_update_patches_sent_fields() {
    let mut cache = Cache::new(5, user(1, "bot"));
    create(&mut cache, message(1, 50, None, 100));
    let mut ev = MessageUpdateEvent {
        id: 1,
        channel_id: 50,
        author: None,
        content: Some("changed".to_string()),
        edited_timestamp: Some(150),
        pinned: None,
        tts: None,
    };
    let old = ev.update(&mut cache).unwrap();
    assert_eq!(old.content, "message 1");
    let now = cache.message(50, 1).unwrap();
    assert_eq!(now.content, "changed");
    assert_eq!(now.edited_timestamp, Some(150));
    assert_eq!(now.author.name, "author");
    ev.id = 2;
    assert!(ev.update(&mut cache).is_none());
}

#[test]
fn message_delete_and_bulk_delete() {
    let mut cache = Cache::new(5, user(1, "bot"));
    for id in 1..=4u64 {
        create(&mut cache, message(id, 50, None, id as i64));
    }
    let gone = MessageDeleteEvent { channel_id: 50, message_id: 2 }.update(&mut cache);
    assert_eq!(gone.unwrap().id, 2);
    assert_eq!(cache.message_ids(50), vec![1, 3, 4]);
    MessageDeleteBulkEvent { channel_id: 50, ids: vec![1, 4, 9] }.update(&mut cache);
    assert_eq!(cache.message_ids(50), vec![3]);
    assert_eq!(cache.message_count(50), 1);
}

#[test]
fn newest_message_id_follows_timestamps() {
    let mut cache = cache_with_guild(10, guild(100, &[50]));
    create(&mut cache, message(1, 50, Some(100), 100));
    assert_eq!(cache.channel(50).unwrap().last_message_id, Some(1));
    create(&mut cache, message(2, 50, Some(100), 50));
    assert_eq!(cache.channel(50).unwrap().last_message_id, Some(1));
    create(&mut cache, message(3, 50, Some(100), 200));
    assert_eq!(cache.channel(50).unwrap().last_message_id, Some(3));
}

#[test]
fn threads_create_update_delete() {
    let mut cache = cache_with_guild(10, guild(100, &[]));
    assert!(ThreadCreateEvent { thread: channel(70, 100, "t") }.update(&mut cache).is_none());
    let old = ThreadUpdateEvent { thread: channel(70, 100, "t2") }.update(&mut cache);
    assert_eq!(old.unwrap().name, "t");
    create(&mut cache, message(1, 70, Some(100), 5));
    assert_eq!(cache.guild(100).unwrap().threads[0].last_message_id, Some(1));
    let gone = ThreadDeleteEvent { id: 70, guild_id: 100 }.update(&mut cache);
    assert_eq!(gone.unwrap().name, "t2");
    assert!(cache.guild(100).unwrap().threads.is_empty());
}

#[test]
fn ready_marks_unavailable_and_sets_shards() {
    let mut cache = cache_with_guild(10, guild(100, &[]));
    let mut ev = ReadyEvent {
        ready: Ready { guilds: vec![100, 101], shard: Some(ShardInfo { id: 0, total: 4 }), user: user(2, "me") },
    };
    ev.update(&mut cache);
    assert!(cache.guild(100).is_none());
    assert!(cache.is_unavailable(100));
    assert!(cache.is_unavailable(101));
    assert_eq!(cache.shard_count(), 4);
    assert_eq!(cache.connected_shard_count(), 1);
    assert_eq!(cache.current_user().name, "me");
}

#[test]
fn ready_without_shard_counts_one() {
    let mut cache = Cache::new(10, user(1, "bot"));
    ReadyEvent { ready: Ready { guilds: vec![], shard: None, user: user(2, "me") } }.update(&mut cache);
    assert_eq!(cache.shard_count(), 1);
    assert_eq!(cache.connected_shard_count(), 1);
}

#[test]
fn user_update_returns_previous() {
    let mut cache = Cache::new(10, user(1, "bot"));
    let old = UserUpdateEvent { current_user: user(1, "renamed") }.update(&mut cache);
    assert_eq!(old.unwrap().name, "bot");
    assert_eq!(cache.current_user().name, "renamed");
}
