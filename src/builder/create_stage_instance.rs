//! The builder of a stage instance.

use vstd::prelude::*;

use crate::model::ChannelId;

verus! {

/// Who can join a stage instance.
#[derive(Clone, Copy, Debug, PartialEq, Eq, Structural)]
pub enum StageInstancePrivacyLevel {
    Public,
    GuildOnly,
}

/// Builds the request that creates a stage instance.
#[derive(Clone, Debug)]
pub struct CreateStageInstance<'a> {
    pub channel_id: Option<ChannelId>,
    pub topic: String,
    pub privacy_level: StageInstancePrivacyLevel,
    pub send_start_notification: Option<bool>,
    pub audit_log_reason: Option<&'a str>,
}

impl<'a> CreateStageInstance<'a> {
    /// A builder with the given topic, private to the guild.
    pub fn new(topic: String) -> (r: Self)
        ensures
            r.channel_id.is_none(),
            r.topic == topic,
            r.privacy_level == StageInstancePrivacyLevel::GuildOnly,
            r.send_start_notification.is_none(),
            r.audit_log_reason.is_none(),
    {
        CreateStageInstance {
            channel_id: None,
            topic,
            privacy_level: StageInstancePrivacyLevel::GuildOnly,
            send_start_notification: None,
            audit_log_reason: None,
        }
    }

    /// Replaces the topic.
    pub fn topic(self, topic: String) -> (r: Self)
        ensures
            r == (CreateStageInstance { topic: topic, ..self }),
    {
        CreateStageInstance { topic, ..self }
    }

    /// Whether to notify everyone that the stage started.
    pub fn send_start_notification(self, send_start_notification: bool) -> (r: Self)
        ensures
            r == (CreateStageInstance { send_start_notification: Some(send_start_notification), ..self }),
    {
        CreateStageInstance { send_start_notification: Some(send_start_notification), ..self }
    }

    /// Sets the reason recorded in the audit log.
    pub fn audit_log_reason(self, reason: &'a str) -> (r: Self)
        ensures
            r == (CreateStageInstance { audit_log_reason: Some(reason), ..self }),
    {
        CreateStageInstance { audit_log_reason: Some(reason), ..self }
    }
}

} // verus!
