use serenity_cache::interaction::{
    ComponentInteraction, ComponentInteractionData, ComponentInteractionDataKind, DataKindError,
    SelectValues,
};
use serenity_cache::model::{Member, User};

#[test]
fn kinds_map_to_wire_numbers() {
    assert_eq!(ComponentInteractionDataKind::Button.component_type(), 2);
    let s = ComponentInteractionDataKind::StringSelect { values: vec!["a".to_string()] };
    assert_eq!(s.component_type(), 3);
    assert!(s.has_values());
    assert_eq!(ComponentInteractionDataKind::ChannelSelect { values: vec![1] }.component_type(), 8);
    assert_eq!(ComponentInteractionDataKind::Unknown(42).component_type(), 42);
    assert!(!ComponentInteractionDataKind::Unknown(42).has_values());
}

#[test]
fn kinds_read_from_wire() {
    assert!(matches!(
        ComponentInteractionDataKind::from_parts(2, None),
        Ok(ComponentInteractionDataKind::Button)
    ));
    match ComponentInteractionDataKind::from_parts(6, Some(SelectValues::Ids(vec![5, 6]))) {
        Ok(ComponentInteractionDataKind::RoleSelect { values }) => assert_eq!(values, vec![5, 6]),
        other => panic!("unexpected {other:?}"),
    }
    assert!(matches!(
        ComponentInteractionDataKind::from_parts(99, None),
        Ok(ComponentInteractionDataKind::Unknown(99))
    ));
}

#[test]
fn kind_errors() {
    assert_eq!(
        ComponentInteractionDataKind::from_parts(3, None).err(),
        Some(DataKindError::MissingValues)
    );
    assert_eq!(
        ComponentInteractionDataKind::from_parts(3, Some(SelectValues::Ids(vec![1]))).err(),
        Some(DataKindError::InvalidValues)
    );
    assert_eq!(
        ComponentInteractionDataKind::from_parts(1, None).err(),
        Some(DataKindError::InvalidComponentType(1))
    );
    assert_eq!(
        ComponentInteractionDataKind::from_parts(4, None).err(),
        Some(DataKindError::InvalidComponentType(4))
    );
}

fn user(id: u64, name: &str) -> User {
    User { id, name: name.to_string(), avatar: None, bot: false }
}

fn interaction(guild_id: Option<u64>, member: Option<Member>) -> ComponentInteraction {
    ComponentInteraction {
        id: 1,
        application_id: 2,
        data: ComponentInteractionData {
            custom_id: "button".to_string(),
            kind: ComponentInteractionDataKind::Button,
        },
        guild_id,
        channel_id: 3,
        member,
        user: user(0, ""),
        token: "token".to_string(),
        version: 1,
        locale: "en-US".to_string(),
        guild_locale: None,
    }
}

#[test]
fn normalize_fills_member_guild_and_user() {
    let member = Member {
        user: user(9, "clicker"),
        guild_id: 0,
        nick: None,
        roles: vec![],
        joined_at: None,
        premium_since: None,
        deaf: false,
        mute: false,
        pending: false,
        avatar: None,
        permissions: None,
        communication_disabled_until: None,
        unusual_dm_activity_until: None,
        flags: 0,
    };
    let mut i = interaction(Some(77), Some(member));
    i.normalize();
    assert_eq!(i.member.as_ref().unwrap().guild_id, 77);
    assert_eq!(i.user.name, "clicker");
    let mut dm = interaction(None, None);
    dm.normalize();
    assert_eq!(dm.user.id, 0);
}
