//! Attachments of outgoing messages.

use vstd::prelude::*;

verus! {

/// The id of an attachment already posted.
pub type AttachmentId = u64;

/// The standard base64 encoding of a byte string, with padding.
pub uninterp spec fn base64_of(data: Seq<u8>) -> Seq<char>;

/// Relies on base64's `Engine::encode_string` with the standard engine: it appends
/// the standard padded encoding of `data` to `out`, a function of the bytes alone.
#[verifier::external_body]
fn append_base64(data: &Vec<u8>, out: &mut String)
    ensures
        final(out)@ == old(out)@ + base64_of(data@),
{
    base64::engine::Engine::encode_string(&base64::prelude::BASE64_STANDARD, data, out)
}

/// What precedes the encoded bytes in a data URL of a PNG image.
pub open spec fn data_url_prefix() -> Seq<char> {
    "data:image/png;base64,"@
}

/// A new file to upload.
#[derive(Debug)]
pub struct CreateAttachment {
    /// A placeholder id, set when the request is built.
    pub id: u64,
    pub filename: String,
    pub description: Option<String>,
    pub data: Vec<u8>,
}

/// An attachment as a value.
pub ghost struct CreateAttachmentView {
    pub id: u64,
    pub filename: Seq<char>,
    pub description: Option<String>,
    pub data: Seq<u8>,
}

impl View for CreateAttachment {
    type V = CreateAttachmentView;

    open spec fn view(&self) -> CreateAttachmentView {
        CreateAttachmentView {
            id: self.id,
            filename: self.filename@,
            description: self.description,
            data: self.data@,
        }
    }
}

impl CreateAttachment {
    /// An attachment of the given bytes and file name.
    pub fn bytes(data: Vec<u8>, filename: String) -> (r: CreateAttachment)
        ensures
            r@ == (CreateAttachmentView {
                id: 0,
                filename: filename@,
                description: None,
                data: data@,
            }),
    {
        CreateAttachment { data, filename, description: None, id: 0 }
    }

    /// The bytes as a base64 data URL of a PNG image.
    pub fn to_base64(&self) -> (r: String)
        ensures
            r@ == data_url_prefix() + base64_of(self.data@),
    {
        let mut encoded = "data:image/png;base64,".to_owned();
        proof {
            reveal_strlit("data:image/png;base64,");
        }
        append_base64(&self.data, &mut encoded);
        encoded
    }

    /// Sets the description of the file.
    pub fn description(self, description: String) -> (r: Self)
        ensures
            r@ == (CreateAttachmentView { description: Some(description), ..self@ }),
    {
        CreateAttachment { description: Some(description), ..self }
    }
}

/// An attachment of a message being edited: a new file, or one to keep.
#[derive(Debug)]
pub enum NewOrExisting {
    New(CreateAttachment),
    Existing(AttachmentId),
}

/// An attachment entry as a value.
pub ghost enum NewOrExistingView {
    New(CreateAttachmentView),
    Existing(AttachmentId),
}

impl View for NewOrExisting {
    type V = NewOrExistingView;

    open spec fn view(&self) -> NewOrExistingView {
        match self {
            NewOrExisting::New(a) => NewOrExistingView::New(a@),
            NewOrExisting::Existing(id) => NewOrExistingView::Existing(*id),
        }
    }
}

/// The attachments a message keeps or gains when it is sent or edited.
#[derive(Debug)]
pub struct EditAttachments {
    pub new_and_existing_attachments: Vec<NewOrExisting>,
}

/// The entries of a list, each as a value.
pub open spec fn entries_view(s: Seq<NewOrExisting>) -> Seq<NewOrExistingView> {
    s.map_values(|a: NewOrExisting| a@)
}

impl View for EditAttachments {
    type V = Seq<NewOrExistingView>;

    open spec fn view(&self) -> Seq<NewOrExistingView> {
        entries_view(self.new_and_existing_attachments@)
    }
}

/// The entries of `s` but those that keep attachment `id`.
pub open spec fn without_kept(s: Seq<NewOrExistingView>, id: AttachmentId) -> Seq<NewOrExistingView>
    decreases s.len(),
{
    if s.len() == 0 {
        s
    } else {
        let rest = without_kept(s.drop_last(), id);
        if s.last() == NewOrExistingView::Existing(id) {
            rest
        } else {
            rest.push(s.last())
        }
    }
}

/// The number of new files among the entries of `s`.
pub open spec fn new_count(s: Seq<NewOrExistingView>) -> nat
    decreases s.len(),
{
    if s.len() == 0 {
        0
    } else {
        new_count(s.drop_last()) + if s.last() is New {
            1nat
        } else {
            0nat
        }
    }
}

/// The uploads that a list of entries asks for: each new file in order, numbered
/// from 0, with its name and bytes.
pub open spec fn files_of(s: Seq<NewOrExistingView>) -> Seq<CreateAttachmentView>
    decreases s.len(),
{
    if s.len() == 0 {
        Seq::empty()
    } else {
        let rest = files_of(s.drop_last());
        match s.last() {
            NewOrExistingView::New(a) => rest.push(
                CreateAttachmentView {
                    id: rest.len() as u64,
                    filename: a.filename,
                    description: None,
                    data: a.data,
                },
            ),
            NewOrExistingView::Existing(_) => rest,
        }
    }
}

/// The entries once their files are taken: each new file numbered like its upload
/// and left without bytes.
pub open spec fn files_taken(s: Seq<NewOrExistingView>) -> Seq<NewOrExistingView>
    decreases s.len(),
{
    if s.len() == 0 {
        s
    } else {
        let rest = files_taken(s.drop_last());
        match s.last() {
            NewOrExistingView::New(a) => rest.push(
                NewOrExistingView::New(
                    CreateAttachmentView {
                        id: files_of(s.drop_last()).len() as u64,
                        data: Seq::empty(),
                        ..a
                    },
                ),
            ),
            NewOrExistingView::Existing(_) => rest.push(s.last()),
        }
    }
}

impl EditAttachments {
    /// No attachments: the message keeps none of its existing ones.
    pub fn new() -> (r: Self)
        ensures
            r@ == Seq::<NewOrExistingView>::empty(),
    {
        let r = EditAttachments { new_and_existing_attachments: Vec::new() };
        proof {
            assert(r@ =~= Seq::<NewOrExistingView>::empty());
        }
        r
    }

    /// Keeps every attachment that a message has, given their ids in order.
    pub fn keep_all(attachment_ids: &Vec<AttachmentId>) -> (r: Self)
        ensures
            r@ == attachment_ids@.map_values(|id: AttachmentId| NewOrExistingView::Existing(id)),
    {
        let mut v: Vec<NewOrExisting> = Vec::new();
        let mut i: usize = 0;
        while i < attachment_ids.len()
            invariant
                i <= attachment_ids@.len(),
                entries_view(v@) == attachment_ids@.subrange(0, i as int).map_values(
                    |id: AttachmentId| NewOrExistingView::Existing(id),
                ),
            decreases attachment_ids@.len() - i,
        {
            let ghost before = v@;
            v.push(NewOrExisting::Existing(attachment_ids[i]));
            proof {
                assert(entries_view(v@) =~= entries_view(before).push(
                    NewOrExistingView::Existing(attachment_ids@[i as int]),
                ));
                assert(attachment_ids@.subrange(0, i + 1).map_values(
                    |id: AttachmentId| NewOrExistingView::Existing(id),
                ) =~= attachment_ids@.subrange(0, i as int).map_values(
                    |id: AttachmentId| NewOrExistingView::Existing(id),
                ).push(NewOrExistingView::Existing(attachment_ids@[i as int])));
            }
            i = i + 1;
        }
        proof {
            assert(attachment_ids@.subrange(0, i as int) =~= attachment_ids@);
        }
        EditAttachments { new_and_existing_attachments: v }
    }

    /// Also keeps the existing attachment `id`.
    pub fn keep(self, id: AttachmentId) -> (r: Self)
        ensures
            r@ == self@.push(NewOrExistingView::Existing(id)),
    {
        let mut v = self.new_and_existing_attachments;
        let ghost before = v@;
        v.push(NewOrExisting::Existing(id));
        proof {
            assert(entries_view(v@) =~= entries_view(before).push(NewOrExistingView::Existing(id)));
        }
        EditAttachments { new_and_existing_attachments: v }
    }

    /// No longer keeps the existing attachment `id`.
    pub fn remove(self, id: AttachmentId) -> (r: Self)
        ensures
            r@ == without_kept(self@, id),
    {
        let old = self.new_and_existing_attachments;
        let ghost s = entries_view(old@);
        let mut v: Vec<NewOrExisting> = Vec::new();
        let mut rest = old;
        let ghost all = rest@;
        proof {
            assert(entries_view(v@) =~= without_kept(s.subrange(0, 0), id));
        }
        let mut i: usize = 0;
        let n = rest.len();
        while rest.len() > 0
            invariant
                i + rest@.len() == n,
                n == all.len(),
                s == entries_view(all),
                rest@ == all.subrange(i as int, n as int),
                entries_view(v@) == without_kept(s.subrange(0, i as int), id),
            decreases rest@.len(),
        {
            let a = rest.remove(0);
            proof {
                assert(rest@ =~= all.subrange(i + 1, n as int));
            }
            proof {
                assert(a@ == s[i as int]);
                assert(s.subrange(0, i + 1).drop_last() =~= s.subrange(0, i as int));
            }
            let keep = match &a {
                NewOrExisting::Existing(x) => *x != id,
                NewOrExisting::New(_) => true,
            };
            if keep {
                let ghost before = v@;
                v.push(a);
                proof {
                    assert(entries_view(v@) =~= entries_view(before).push(s[i as int]));
                }
            }
            i = i + 1;
        }
        proof {
            assert(s.subrange(0, i as int) =~= s);
        }
        EditAttachments { new_and_existing_attachments: v }
    }

    /// Adds a new file.
    pub fn add(self, attachment: CreateAttachment) -> (r: Self)
        ensures
            r@ == self@.push(NewOrExistingView::New(attachment@)),
    {
        let mut v = self.new_and_existing_attachments;
        let ghost before = v@;
        v.push(NewOrExisting::New(attachment));
        proof {
            assert(entries_view(v@) =~= entries_view(before).push(NewOrExistingView::New(attachment@)));
        }
        EditAttachments { new_and_existing_attachments: v }
    }

    /// Takes out the new files to upload, in order and numbered from 0, keeping only
    /// their names and bytes; each new entry keeps its number and gives up its bytes.
    pub fn take_files(&mut self) -> (r: Vec<CreateAttachment>)
        ensures
            r@.map_values(|a: CreateAttachment| a@) == files_of(old(self)@),
            final(self)@ == files_taken(old(self)@),
    {
        let ghost s = self@;
        let n = self.new_and_existing_attachments.len();
        let mut files: Vec<CreateAttachment> = Vec::new();
        let mut i: usize = 0;
        proof {
            assert(self@.subrange(0, 0) =~= files_taken(s.subrange(0, 0)));
            assert(files@.map_values(|a: CreateAttachment| a@) =~= files_of(s.subrange(0, 0)));
        }
        while i < n
            invariant
                i <= n,
                n == s.len(),
                self@.len() == n,
                self@.subrange(0, i as int) == files_taken(s.subrange(0, i as int)),
                self@.subrange(i as int, n as int) == s.subrange(i as int, n as int),
                files@.map_values(|a: CreateAttachment| a@) == files_of(s.subrange(0, i as int)),
            decreases n - i,
        {
            let ghost before = self@;
            let mut entry = NewOrExisting::Existing(0);
            self.new_and_existing_attachments.set_and_swap(i, &mut entry);
            proof {
                assert(entry@ == s[i as int]) by {
                    assert(before.subrange(i as int, n as int)[0] == s.subrange(i as int, n as int)[0]);
                };
                assert(s.subrange(0, i + 1).drop_last() =~= s.subrange(0, i as int));
            }
            let placeholder = files.len() as u64;
            let mut entry = match entry {
                NewOrExisting::New(mut a) => {
                    let mut data: Vec<u8> = Vec::new();
                    std::mem::swap(&mut data, &mut a.data);
                    let mut cloned = CreateAttachment::bytes(data, a.filename.clone());
                    a.id = placeholder;
                    cloned.id = placeholder;
                    files.push(cloned);
                    NewOrExisting::New(a)
                },
                NewOrExisting::Existing(x) => NewOrExisting::Existing(x),
            };
            self.new_and_existing_attachments.set_and_swap(i, &mut entry);
            proof {
                assert(self@ =~= before.update(i as int, self@[i as int]));
                assert(self@.subrange(0, i + 1) =~= files_taken(s.subrange(0, i + 1)));
                let tail = self@.subrange(i + 1, n as int);
                let stail = s.subrange(i + 1, n as int);
                let btail = before.subrange(i as int, n as int);
                let sbtail = s.subrange(i as int, n as int);
                assert(tail =~= stail) by {
                    assert forall|j: int| 0 <= j < tail.len() implies #[trigger] tail[j] == stail[j] by {
                        assert(btail[j + 1] == sbtail[j + 1]);
                    }
                };
                assert(files@.map_values(|a: CreateAttachment| a@) =~= files_of(s.subrange(0, i + 1)));
            }
            i = i + 1;
        }
        proof {
            assert(s.subrange(0, n as int) =~= s);
            assert(self@.subrange(0, n as int) =~= self@);
        }
        files
    }

    /// Whether there are no entries.
    pub fn is_empty(&self) -> (r: bool)
        ensures
            r == (self@.len() == 0),
    {
        self.new_and_existing_attachments.len() == 0
    }
}

} // verus!
