//! The builder of a webhook execution.

use vstd::prelude::*;
use vstd::std_specs::iter::IteratorSpec;

use crate::builder::create_attachment::{
    files_of, files_taken, CreateAttachment, CreateAttachmentView, EditAttachments,
    NewOrExistingView,
};
use crate::model::ChannelId;

verus! {

/// The most characters a message's content may have.
pub const MESSAGE_CODE_LIMIT: usize = 2000;

/// The most embeds a message may have.
pub const EMBED_MAX_COUNT: usize = 10;

/// The most characters an embed may have, over all of its texts.
pub const EMBED_MAX_LENGTH: usize = 6000;

/// Why a request cannot be sent as built.
#[derive(Clone, Copy, Debug, PartialEq, Eq, Structural)]
pub enum ModelError {
    /// The content is longer than allowed, by this many characters.
    MessageTooLong(usize),
    /// There are more embeds than allowed.
    EmbedAmount,
    /// An embed is longer than allowed, by this many characters.
    EmbedTooLarge(usize),
}

/// A rich embed of a message.
#[derive(Clone, Debug)]
pub struct CreateEmbed {
    pub title: Option<String>,
    pub description: Option<String>,
    pub footer: Option<String>,
    pub colour: Option<u32>,
}

/// Which mentions of a message notify.
#[derive(Clone, Copy, Debug, PartialEq, Eq, Structural)]
pub struct CreateAllowedMentions {
    pub everyone: bool,
    pub users: bool,
    pub roles: bool,
    pub replied_user: bool,
}

/// A row of message components, by their custom ids.
#[derive(Clone, Debug)]
pub struct CreateActionRow {
    pub custom_ids: Vec<String>,
}

/// Flags of a message, as bits.
#[derive(Clone, Copy, Debug, PartialEq, Eq, Structural)]
pub struct MessageFlags {
    pub bits: u64,
}

/// A number that saturates at the top of `usize`.
pub open spec fn capped(n: int) -> usize {
    if n <= usize::MAX {
        n as usize
    } else {
        usize::MAX
    }
}

/// The number of characters of a string.
pub fn char_count(s: &str) -> (r: usize)
    ensures
        r == capped(s@.len() as int),
{
    let mut n: usize = 0;
    for c in it: s.chars()
        invariant
            it.seq() == s@,
            n == capped(it.index() as int),
    {
        n = n.saturating_add(1);
    }
    n
}

/// The number of characters of an optional text.
pub open spec fn opt_len(s: Option<String>) -> int {
    match s {
        Some(t) => t@.len() as int,
        None => 0,
    }
}

/// The number of characters of an optional text.
fn opt_char_count(s: &Option<String>) -> (r: usize)
    ensures
        r == capped(opt_len(*s)),
{
    match s {
        Some(t) => char_count(t.as_str()),
        None => 0,
    }
}

/// The characters of an embed, over all of its texts.
pub open spec fn embed_len(e: CreateEmbed) -> int {
    opt_len(e.title) + opt_len(e.description) + opt_len(e.footer)
}

/// The characters of an embed, counted in `usize` and saturating at its top.
pub open spec fn embed_total(e: CreateEmbed) -> usize {
    capped(
        capped(capped(opt_len(e.title)) + capped(opt_len(e.description))) + capped(
            opt_len(e.footer),
        ),
    )
}

impl CreateEmbed {
    /// An embed with no texts.
    pub fn new() -> (r: Self)
        ensures
            r.title.is_none(),
            r.description.is_none(),
            r.footer.is_none(),
            r.colour.is_none(),
    {
        CreateEmbed { title: None, description: None, footer: None, colour: None }
    }

    /// Fails when the embed's texts are longer than allowed, by how much.
    pub fn check_length(&self) -> (r: Result<(), ModelError>)
        ensures
            r == (if embed_total(*self) > EMBED_MAX_LENGTH {
                Err(ModelError::EmbedTooLarge((embed_total(*self) - EMBED_MAX_LENGTH) as usize))
            } else {
                Ok(())
            }),
            embed_len(*self) <= EMBED_MAX_LENGTH ==> r is Ok,
            embed_len(*self) > EMBED_MAX_LENGTH && embed_len(*self) < usize::MAX ==> r == Err::<
                (),
                ModelError,
            >(ModelError::EmbedTooLarge((embed_len(*self) - EMBED_MAX_LENGTH) as usize)),
    {
        let a = opt_char_count(&self.title);
        let b = opt_char_count(&self.description);
        let c = opt_char_count(&self.footer);
        let total = a.saturating_add(b).saturating_add(c);
        if total > EMBED_MAX_LENGTH {
            Err(ModelError::EmbedTooLarge(total - EMBED_MAX_LENGTH))
        } else {
            Ok(())
        }
    }
}

/// The content and settings of a message sent through a webhook.
#[derive(Debug)]
pub struct ExecuteWebhook {
    pub content: Option<String>,
    pub username: Option<String>,
    pub avatar_url: Option<String>,
    pub tts: bool,
    pub embeds: Vec<CreateEmbed>,
    pub allowed_mentions: Option<CreateAllowedMentions>,
    pub components: Option<Vec<CreateActionRow>>,
    pub flags: Option<MessageFlags>,
    pub thread_name: Option<String>,
    pub attachments: EditAttachments,
    pub thread_id: Option<ChannelId>,
    pub with_components: Option<bool>,
}

/// Why a webhook execution is refused, in order of checking: the content, the
/// number of embeds, then the first embed that is too long.
pub open spec fn first_embed_error(embeds: Seq<CreateEmbed>) -> Option<ModelError>
    decreases embeds.len(),
{
    if embeds.len() == 0 {
        None
    } else {
        match first_embed_error(embeds.drop_last()) {
            Some(e) => Some(e),
            None => if embed_total(embeds.last()) > EMBED_MAX_LENGTH {
                Some(ModelError::EmbedTooLarge((embed_total(embeds.last()) - EMBED_MAX_LENGTH) as usize))
            } else {
                None
            },
        }
    }
}

/// The characters of optional content, saturating at the top of `usize`.
pub open spec fn content_chars(c: Option<String>) -> usize {
    match c {
        Some(c) => capped(c@.len() as int),
        None => 0,
    }
}

/// The error that the length checks of a webhook execution find, if any.
pub open spec fn length_error(w: ExecuteWebhook) -> Option<ModelError> {
    let content_len = content_chars(w.content);
    if content_len > MESSAGE_CODE_LIMIT {
        Some(ModelError::MessageTooLong((content_len - MESSAGE_CODE_LIMIT) as usize))
    } else if w.embeds@.len() > EMBED_MAX_COUNT {
        Some(ModelError::EmbedAmount)
    } else {
        first_embed_error(w.embeds@)
    }
}

/// The entries that adding each of `files` appends.
pub open spec fn new_entries(files: Seq<CreateAttachment>) -> Seq<NewOrExistingView> {
    files.map_values(|a: CreateAttachment| NewOrExistingView::New(a@))
}

impl ExecuteWebhook {
    /// An empty execution: no content, embeds, files or overrides.
    pub fn new() -> (r: Self)
        ensures
            r.content.is_none(),
            r.username.is_none(),
            r.avatar_url.is_none(),
            !r.tts,
            r.embeds@.len() == 0,
            r.allowed_mentions.is_none(),
            r.components.is_none(),
            r.flags.is_none(),
            r.thread_name.is_none(),
            r.attachments@.len() == 0,
            r.thread_id.is_none(),
            r.with_components.is_none(),
    {
        ExecuteWebhook {
            content: None,
            username: None,
            avatar_url: None,
            tts: false,
            embeds: Vec::new(),
            allowed_mentions: None,
            components: None,
            flags: None,
            thread_name: None,
            attachments: EditAttachments::new(),
            thread_id: None,
            with_components: None,
        }
    }

    /// Fails when the content is too long, there are too many embeds, or an embed is
    /// too long, checked in that order.
    pub fn check_length(&self) -> (r: Result<(), ModelError>)
        ensures
            match length_error(*self) {
                Some(e) => r == Err::<(), ModelError>(e),
                None => r is Ok,
            },
    {
        match &self.content {
            Some(content) => {
                let n = char_count(content.as_str());
                if n > MESSAGE_CODE_LIMIT {
                    return Err(ModelError::MessageTooLong(n - MESSAGE_CODE_LIMIT));
                }
                proof {
                    assert(capped(content@.len() as int) <= MESSAGE_CODE_LIMIT);
                }
            },
            None => {},
        }
        proof {
            assert(content_chars(self.content) <= MESSAGE_CODE_LIMIT);
        }
        if self.embeds.len() > EMBED_MAX_COUNT {
            return Err(ModelError::EmbedAmount);
        }
        let mut i: usize = 0;
        while i < self.embeds.len()
            invariant
                i <= self.embeds@.len(),
                self.embeds@.len() <= EMBED_MAX_COUNT,
                content_chars(self.content) <= MESSAGE_CODE_LIMIT,
                first_embed_error(self.embeds@.subrange(0, i as int)).is_none(),
            decreases self.embeds@.len() - i,
        {
            let r = self.embeds[i].check_length();
            proof {
                assert(self.embeds@.subrange(0, i + 1).drop_last() =~= self.embeds@.subrange(0, i as int));
            }
            if r.is_err() {
                proof {
                    assert(self.embeds@.subrange(0, i + 1).last() == self.embeds@[i as int]);
                    assert(first_embed_error(self.embeds@.subrange(0, i + 1)) == Some(
                        ModelError::EmbedTooLarge((embed_total(self.embeds@[i as int]) - EMBED_MAX_LENGTH) as usize),
                    ));
                    lemma_first_error_extends(self.embeds@, i as int + 1);
                }
                return r;
            }
            i = i + 1;
        }
        proof {
            assert(self.embeds@.subrange(0, i as int) =~= self.embeds@);
        }
        Ok(())
    }

    /// Overrides the webhook's avatar.
    pub fn avatar_url(self, avatar_url: String) -> (r: Self)
        ensures
            r == (ExecuteWebhook { avatar_url: Some(avatar_url), ..self }),
    {
        ExecuteWebhook { avatar_url: Some(avatar_url), ..self }
    }

    /// Sets the content.
    pub fn content(self, content: String) -> (r: Self)
        ensures
            r == (ExecuteWebhook { content: Some(content), ..self }),
    {
        ExecuteWebhook { content: Some(content), ..self }
    }

    /// Sends into the given thread.
    pub fn in_thread(self, thread_id: ChannelId) -> (r: Self)
        ensures
            r == (ExecuteWebhook { thread_id: Some(thread_id), ..self }),
    {
        ExecuteWebhook { thread_id: Some(thread_id), ..self }
    }

    /// Appends a file.
    pub fn add_file(self, file: CreateAttachment) -> (r: Self)
        ensures
            r == (ExecuteWebhook { attachments: r.attachments, ..self }),
            r.attachments@ == self.attachments@.push(NewOrExistingView::New(file@)),
    {
        let ExecuteWebhook {
            content,
            username,
            avatar_url,
            tts,
            embeds,
            allowed_mentions,
            components,
            flags,
            thread_name,
            attachments,
            thread_id,
            with_components,
        } = self;
        ExecuteWebhook {
            content,
            username,
            avatar_url,
            tts,
            embeds,
            allowed_mentions,
            components,
            flags,
            thread_name,
            attachments: attachments.add(file),
            thread_id,
            with_components,
        }
    }

    /// Appends files, in order.
    pub fn add_files(self, files: Vec<CreateAttachment>) -> (r: Self)
        ensures
            r == (ExecuteWebhook { attachments: r.attachments, ..self }),
            r.attachments@ == self.attachments@ + new_entries(files@),
    {
        let ghost s0 = self.attachments@;
        let ghost all = files@;
        let mut w = self;
        let mut rest = files;
        let n = rest.len();
        let mut i: usize = 0;
        proof {
            assert(s0 + new_entries(all.subrange(0, 0)) =~= s0);
        }
        while rest.len() > 0
            invariant
                i + rest@.len() == n,
                n == all.len(),
                rest@ == all.subrange(i as int, n as int),
                w == (ExecuteWebhook { attachments: w.attachments, ..self }),
                w.attachments@ == s0 + new_entries(all.subrange(0, i as int)),
            decreases rest@.len(),
        {
            let file = rest.remove(0);
            proof {
                assert(rest@ =~= all.subrange(i + 1, n as int));
                assert(new_entries(all.subrange(0, i + 1)) =~= new_entries(all.subrange(0, i as int)).push(
                    NewOrExistingView::New(file@),
                ));
            }
            w = w.add_file(file);
            i = i + 1;
        }
        proof {
            assert(all.subrange(0, i as int) =~= all);
        }
        w
    }

    /// Sets the files, replacing any added before.
    pub fn files(self, files: Vec<CreateAttachment>) -> (r: Self)
        ensures
            r == (ExecuteWebhook { attachments: r.attachments, ..self }),
            r.attachments@ == new_entries(files@),
    {
        let ExecuteWebhook {
            content,
            username,
            avatar_url,
            tts,
            embeds,
            allowed_mentions,
            components,
            flags,
            thread_name,
            attachments,
            thread_id,
            with_components,
        } = self;
        let w = ExecuteWebhook {
            content,
            username,
            avatar_url,
            tts,
            embeds,
            allowed_mentions,
            components,
            flags,
            thread_name,
            attachments: EditAttachments::new(),
            thread_id,
            with_components,
        };
        let r = w.add_files(files);
        proof {
            assert(Seq::<NewOrExistingView>::empty() + new_entries(files@) =~= new_entries(files@));
        }
        r
    }

    /// Sets which mentions notify.
    pub fn allowed_mentions(self, allowed_mentions: CreateAllowedMentions) -> (r: Self)
        ensures
            r == (ExecuteWebhook { allowed_mentions: Some(allowed_mentions), ..self }),
    {
        ExecuteWebhook { allowed_mentions: Some(allowed_mentions), ..self }
    }

    /// Sets the component rows.
    pub fn components(self, components: Vec<CreateActionRow>) -> (r: Self)
        ensures
            r == (ExecuteWebhook { components: Some(components), ..self }),
    {
        ExecuteWebhook { components: Some(components), ..self }
    }

    /// Sets a single embed.
    pub fn embed(self, embed: CreateEmbed) -> (r: Self)
        ensures
            r == (ExecuteWebhook { embeds: r.embeds, ..self }),
            r.embeds@ == seq![embed],
    {
        let mut v: Vec<CreateEmbed> = Vec::new();
        v.push(embed);
        proof {
            assert(v@ =~= seq![embed]);
        }
        self.embeds(v)
    }

    /// Sets the embeds.
    pub fn embeds(self, embeds: Vec<CreateEmbed>) -> (r: Self)
        ensures
            r == (ExecuteWebhook { embeds: embeds, ..self }),
    {
        ExecuteWebhook { embeds, ..self }
    }

    /// Whether the message is read aloud.
    pub fn tts(self, tts: bool) -> (r: Self)
        ensures
            r == (ExecuteWebhook { tts: tts, ..self }),
    {
        ExecuteWebhook { tts, ..self }
    }

    /// Overrides the webhook's user name.
    pub fn username(self, username: String) -> (r: Self)
        ensures
            r == (ExecuteWebhook { username: Some(username), ..self }),
    {
        ExecuteWebhook { username: Some(username), ..self }
    }

    /// Sets the message flags.
    pub fn flags(self, flags: MessageFlags) -> (r: Self)
        ensures
            r == (ExecuteWebhook { flags: Some(flags), ..self }),
    {
        ExecuteWebhook { flags: Some(flags), ..self }
    }

    /// Names the thread to create, in a forum channel.
    pub fn thread_name(self, thread_name: String) -> (r: Self)
        ensures
            r == (ExecuteWebhook { thread_name: Some(thread_name), ..self }),
    {
        ExecuteWebhook { thread_name: Some(thread_name), ..self }
    }

    /// Allows non-interactive components on webhooks not owned by an application.
    pub fn with_components(self, with_components: bool) -> (r: Self)
        ensures
            r == (ExecuteWebhook { with_components: Some(with_components), ..self }),
    {
        ExecuteWebhook { with_components: Some(with_components), ..self }
    }

    /// Readies the execution for sending: checks the lengths, takes out the files to
    /// upload and fills in the default allowed mentions if none are set. Returns the
    /// files and whether the components route is to be used.
    pub fn prepare(&mut self, default_allowed_mentions: Option<CreateAllowedMentions>) -> (r: Result<
        (Vec<CreateAttachment>, bool),
        ModelError,
    >)
        ensures
            match length_error(*old(self)) {
                Some(e) => r == Err::<(Vec<CreateAttachment>, bool), ModelError>(e) && *final(self)
                    == *old(self),
                None => match r {
                    Ok((files, components_route)) => {
                        &&& files@.map_values(|a: CreateAttachment| a@) == files_of(old(self).attachments@)
                        &&& final(self).attachments@ == files_taken(old(self).attachments@)
                        &&& final(self).allowed_mentions == (match old(self).allowed_mentions {
                            Some(m) => Some(m),
                            None => default_allowed_mentions,
                        })
                        &&& components_route == (old(self).with_components == Some(true))
                        &&& *final(self) == (ExecuteWebhook {
                            attachments: final(self).attachments,
                            allowed_mentions: final(self).allowed_mentions,
                            ..*old(self)
                        })
                    },
                    Err(_) => false,
                },
            },
    {
        match self.check_length() {
            Ok(()) => {},
            Err(e) => {
                return Err(e);
            },
        }
        let files = self.attachments.take_files();
        if self.allowed_mentions.is_none() {
            self.allowed_mentions = default_allowed_mentions;
        }
        let components_route = match self.with_components {
            Some(b) => b,
            None => false,
        };
        Ok((files, components_route))
    }
}

/// Once some embeds of a prefix are refused, the whole list's first refusal is that one.
proof fn lemma_first_error_extends(embeds: Seq<CreateEmbed>, k: int)
    requires
        0 <= k <= embeds.len(),
        first_embed_error(embeds.subrange(0, k)) is Some,
    ensures
        first_embed_error(embeds) == first_embed_error(embeds.subrange(0, k)),
    decreases embeds.len() - k,
{
    if k < embeds.len() {
        let s = embeds.subrange(0, k + 1);
        assert(s.drop_last() =~= embeds.subrange(0, k));
        lemma_first_error_extends(embeds, k + 1);
    } else {
        assert(embeds.subrange(0, k) =~= embeds);
    }
}

} // verus!
