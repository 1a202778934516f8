//! Interactions triggered by message components.

use vstd::prelude::*;

use crate::model::{ChannelId, GuildId, Member, MemberView, RoleId, User, UserId};

verus! {

/// What was used, and the values chosen in a select menu.
#[derive(Debug)]
pub enum ComponentInteractionDataKind {
    Button,
    StringSelect { values: Vec<String> },
    UserSelect { values: Vec<UserId> },
    RoleSelect { values: Vec<RoleId> },
    MentionableSelect { values: Vec<u64> },
    ChannelSelect { values: Vec<ChannelId> },
    Unknown(u8),
}

/// The wire number of a component kind.
pub open spec fn component_type_of(k: ComponentInteractionDataKind) -> u8 {
    match k {
        ComponentInteractionDataKind::Button => 2,
        ComponentInteractionDataKind::StringSelect { .. } => 3,
        ComponentInteractionDataKind::UserSelect { .. } => 5,
        ComponentInteractionDataKind::RoleSelect { .. } => 6,
        ComponentInteractionDataKind::MentionableSelect { .. } => 7,
        ComponentInteractionDataKind::ChannelSelect { .. } => 8,
        ComponentInteractionDataKind::Unknown(x) => x,
    }
}

/// The chosen values of a select menu, as decoded from the wire.
#[derive(Debug)]
pub enum SelectValues {
    Strings(Vec<String>),
    Ids(Vec<u64>),
}

/// Why the data of a component interaction was refused.
#[derive(Clone, Copy, Debug, PartialEq, Eq, Structural)]
pub enum DataKindError {
    /// A select menu came without its values.
    MissingValues,
    /// A select menu's values were of the wrong kind.
    InvalidValues,
    /// The component cannot be interacted with (an action row, or a text input).
    InvalidComponentType(u8),
}

/// The kind a component interaction's data has, by its wire number and values, or
/// why there is none.
pub open spec fn kind_from_parts_spec(
    component_type: u8,
    values: Option<SelectValues>,
) -> Result<ComponentInteractionDataKind, DataKindError> {
    if component_type == 1 || component_type == 4 {
        Err(DataKindError::InvalidComponentType(component_type))
    } else if component_type == 2 {
        Ok(ComponentInteractionDataKind::Button)
    } else if 3 <= component_type <= 8 {
        match values {
            None => Err(DataKindError::MissingValues),
            Some(SelectValues::Strings(v)) => if component_type == 3 {
                Ok(ComponentInteractionDataKind::StringSelect { values: v })
            } else {
                Err(DataKindError::InvalidValues)
            },
            Some(SelectValues::Ids(v)) => if component_type == 5 {
                Ok(ComponentInteractionDataKind::UserSelect { values: v })
            } else if component_type == 6 {
                Ok(ComponentInteractionDataKind::RoleSelect { values: v })
            } else if component_type == 7 {
                Ok(ComponentInteractionDataKind::MentionableSelect { values: v })
            } else if component_type == 8 {
                Ok(ComponentInteractionDataKind::ChannelSelect { values: v })
            } else {
                Err(DataKindError::InvalidValues)
            },
        }
    } else {
        Ok(ComponentInteractionDataKind::Unknown(component_type))
    }
}

impl ComponentInteractionDataKind {
    /// The kind by its wire number and, for a select menu, its values.
    pub fn from_parts(component_type: u8, values: Option<SelectValues>) -> (r: Result<
        Self,
        DataKindError,
    >)
        ensures
            r == kind_from_parts_spec(component_type, values),
    {
        if component_type == 1 || component_type == 4 {
            return Err(DataKindError::InvalidComponentType(component_type));
        }
        if component_type == 2 {
            return Ok(ComponentInteractionDataKind::Button);
        }
        if component_type < 3 || component_type > 8 {
            return Ok(ComponentInteractionDataKind::Unknown(component_type));
        }
        match values {
            None => Err(DataKindError::MissingValues),
            Some(SelectValues::Strings(v)) => if component_type == 3 {
                Ok(ComponentInteractionDataKind::StringSelect { values: v })
            } else {
                Err(DataKindError::InvalidValues)
            },
            Some(SelectValues::Ids(v)) => if component_type == 5 {
                Ok(ComponentInteractionDataKind::UserSelect { values: v })
            } else if component_type == 6 {
                Ok(ComponentInteractionDataKind::RoleSelect { values: v })
            } else if component_type == 7 {
                Ok(ComponentInteractionDataKind::MentionableSelect { values: v })
            } else if component_type == 8 {
                Ok(ComponentInteractionDataKind::ChannelSelect { values: v })
            } else {
                Err(DataKindError::InvalidValues)
            },
        }
    }

    /// Reading a kind back from its wire number and values gives the kind, for every
    /// kind but an unknown one whose number is a known kind's.
    pub proof fn lemma_round_trip(k: ComponentInteractionDataKind)
        requires
            match k {
                ComponentInteractionDataKind::Unknown(x) => x < 1 || x > 8,
                _ => true,
            },
        ensures
            kind_from_parts_spec(component_type_of(k), values_of(k)) == Ok::<
                ComponentInteractionDataKind,
                DataKindError,
            >(k),
    {
    }

    /// The wire number of the component kind.
    pub fn component_type(&self) -> (r: u8)
        ensures
            r == component_type_of(*self),
    {
        match self {
            ComponentInteractionDataKind::Button => 2,
            ComponentInteractionDataKind::StringSelect { .. } => 3,
            ComponentInteractionDataKind::UserSelect { .. } => 5,
            ComponentInteractionDataKind::RoleSelect { .. } => 6,
            ComponentInteractionDataKind::MentionableSelect { .. } => 7,
            ComponentInteractionDataKind::ChannelSelect { .. } => 8,
            ComponentInteractionDataKind::Unknown(x) => *x,
        }
    }

    /// Whether the kind carries chosen values.
    pub fn has_values(&self) -> (r: bool)
        ensures
            r == !(*self is Button || *self is Unknown),
    {
        match self {
            ComponentInteractionDataKind::Button | ComponentInteractionDataKind::Unknown(_) => false,
            _ => true,
        }
    }
}

/// The values a kind carries, as sent on the wire.
pub open spec fn values_of(k: ComponentInteractionDataKind) -> Option<SelectValues> {
    match k {
        ComponentInteractionDataKind::StringSelect { values } => Some(SelectValues::Strings(values)),
        ComponentInteractionDataKind::UserSelect { values } => Some(SelectValues::Ids(values)),
        ComponentInteractionDataKind::RoleSelect { values } => Some(SelectValues::Ids(values)),
        ComponentInteractionDataKind::MentionableSelect { values } => Some(SelectValues::Ids(values)),
        ComponentInteractionDataKind::ChannelSelect { values } => Some(SelectValues::Ids(values)),
        _ => None,
    }
}

/// The data of a component interaction.
#[derive(Debug)]
pub struct ComponentInteractionData {
    /// The developer-defined id of the component.
    pub custom_id: String,
    pub kind: ComponentInteractionDataKind,
}

/// An interaction triggered by a message component.
#[derive(Debug)]
pub struct ComponentInteraction {
    pub id: u64,
    pub application_id: u64,
    pub data: ComponentInteractionData,
    pub guild_id: Option<GuildId>,
    pub channel_id: ChannelId,
    /// The invoking member; sent in guilds only.
    pub member: Option<Member>,
    /// The invoking user; taken from `member` when that is sent.
    pub user: User,
    /// Answers the interaction.
    pub token: String,
    pub version: u8,
    pub locale: String,
    pub guild_locale: Option<String>,
}

impl ComponentInteraction {
    /// Completes a received interaction: in a guild, the member learns its guild and
    /// the user is the member's own.
    pub fn normalize(&mut self)
        ensures
            match (old(self).guild_id, old(self).member) {
                (Some(gid), Some(m)) => {
                    &&& final(self).member is Some
                    &&& final(self).member.unwrap()@ == (MemberView { guild_id: gid, ..m@ })
                    &&& final(self).user == m.user
                    &&& final(self).data == old(self).data
                    &&& final(self).guild_id == old(self).guild_id
                    &&& final(self).token == old(self).token
                },
                _ => *final(self) == *old(self),
            },
    {
        if let Some(gid) = self.guild_id {
            if let Some(member) = &mut self.member {
                member.guild_id = gid;
                self.user = member.user.clone();
            }
        }
    }
}

} // verus!
