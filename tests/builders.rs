use serenity_cache::builder::create_attachment::{CreateAttachment, EditAttachments, NewOrExisting};
use serenity_cache::builder::create_stage_instance::{CreateStageInstance, StageInstancePrivacyLevel};
use serenity_cache::builder::execute_webhook::{
    CreateAllowedMentions, CreateEmbed, ExecuteWebhook, MessageFlags, ModelError,
};

fn file(name: &str, data: &[u8]) -> CreateAttachment {
    CreateAttachment::bytes(data.to_vec(), name.to_string())
}

#[test]
fn attachment_to_base64_encodes_bytes() {
    let a = file("a.png", b"hi");
    assert_eq!(a.to_base64(), "data:image/png;base64,aGk=");
    let empty = file("e.png", b"");
    assert_eq!(empty.to_base64(), "data:image/png;base64,");
}

#[test]
fn attachment_description() {
    let a = file("a.png", b"x").description("desc".to_string());
    assert_eq!(a.description, Some("desc".to_string()));
    assert_eq!(a.filename, "a.png");
    assert_eq!(a.id, 0);
}

#[test]
fn edit_attachments_keep_remove_add() {
    let e = EditAttachments::keep_all(&vec![1, 2, 3]).remove(2).keep(4).add(file("n.txt", b"abc"));
    let kept: Vec<String> = e
        .new_and_existing_attachments
        .iter()
        .map(|a| match a {
            NewOrExisting::Existing(id) => format!("e{id}"),
            NewOrExisting::New(f) => format!("n{}", f.filename),
        })
        .collect();
    assert_eq!(kept, vec!["e1", "e3", "e4", "nn.txt"]);
    assert!(!e.is_empty());
    assert!(EditAttachments::new().is_empty());
}

#[test]
fn take_files_numbers_new_files() {
    let mut e = EditAttachments::new().add(file("a", b"1")).keep(9).add(file("b", b"22"));
    let files = e.take_files();
    assert_eq!(files.len(), 2);
    assert_eq!(files[0].filename, "a");
    assert_eq!(files[0].id, 0);
    assert_eq!(files[0].data, b"1".to_vec());
    assert_eq!(files[1].filename, "b");
    assert_eq!(files[1].id, 1);
    assert_eq!(files[1].data, b"22".to_vec());
    match &e.new_and_existing_attachments[2] {
        NewOrExisting::New(f) => {
            assert_eq!(f.id, 1);
            assert!(f.data.is_empty());
        },
        NewOrExisting::Existing(_) => panic!("expected a new file"),
    }
}

#[test]
fn stage_instance_builder() {
    let b = CreateStageInstance::new("topic".to_string())
        .topic("other".to_string())
        .send_start_notification(true)
        .audit_log_reason("why");
    assert_eq!(b.topic, "other");
    assert_eq!(b.send_start_notification, Some(true));
    assert_eq!(b.audit_log_reason, Some("why"));
    assert_eq!(b.privacy_level, StageInstancePrivacyLevel::GuildOnly);
    assert!(b.channel_id.is_none());
}

#[test]
fn webhook_builder_sets_fields() {
    let w = ExecuteWebhook::new()
        .content("hello".to_string())
        .username("hakase".to_string())
        .avatar_url("https://example.com/a.png".to_string())
        .tts(true)
        .in_thread(12345678)
        .flags(MessageFlags { bits: 4 })
        .thread_name("t".to_string())
        .with_components(true)
        .embed(CreateEmbed::new());
    assert_eq!(w.content, Some("hello".to_string()));
    assert_eq!(w.username, Some("hakase".to_string()));
    assert!(w.tts);
    assert_eq!(w.thread_id, Some(12345678));
    assert_eq!(w.flags, Some(MessageFlags { bits: 4 }));
    assert_eq!(w.embeds.len(), 1);
    assert_eq!(w.with_components, Some(true));
}

#[test]
fn webhook_files_replace_and_add_files_append() {
    let w = ExecuteWebhook::new().add_file(file("a", b"1")).files(vec![file("b", b"2"), file("c", b"3")]);
    assert_eq!(w.attachments.new_and_existing_attachments.len(), 2);
    let w = w.add_files(vec![file("d", b"4")]);
    assert_eq!(w.attachments.new_and_existing_attachments.len(), 3);
}

#[test]
fn webhook_check_length_errors() {
    let ok = ExecuteWebhook::new().content("x".repeat(2000));
    assert_eq!(ok.check_length(), Ok(()));
    let long = ExecuteWebhook::new().content("x".repeat(2003));
    assert_eq!(long.check_length(), Err(ModelError::MessageTooLong(3)));
    let many = ExecuteWebhook::new().embeds((0..11).map(|_| CreateEmbed::new()).collect());
    assert_eq!(many.check_length(), Err(ModelError::EmbedAmount));
    let mut big = CreateEmbed::new();
    big.title = Some("t".repeat(3000));
    big.description = Some("d".repeat(3001));
    let w = ExecuteWebhook::new().embeds(vec![CreateEmbed::new(), big]);
    assert_eq!(w.check_length(), Err(ModelError::EmbedTooLarge(1)));
}

#[test]
fn webhook_prepare_takes_files_and_defaults_mentions() {
    let mentions = CreateAllowedMentions { everyone: false, users: true, roles: false, replied_user: true };
    let mut w = ExecuteWebhook::new().add_file(file("a", b"1"));
    let (files, components) = w.prepare(Some(mentions)).unwrap();
    assert_eq!(files.len(), 1);
    assert!(!components);
    assert_eq!(w.allowed_mentions, Some(mentions));
    let mut bad = ExecuteWebhook::new().content("y".repeat(2001));
    assert_eq!(bad.prepare(None).err(), Some(ModelError::MessageTooLong(1)));
}
