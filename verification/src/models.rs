use crate::text::{opt_clone, opt_view};
use vstd::prelude::*;

verus! {

/// A mail folder of one account.
#[derive(Debug)]
pub struct Folder {
    pub name: String,
    pub path: String,
    pub unread_count: u32,
    pub total_count: u32,
    pub mailbox_hash: u64,
}

/// What a folder holds, as plain values.
pub struct FolderView {
    pub name: Seq<char>,
    pub path: Seq<char>,
    pub unread_count: u32,
    pub total_count: u32,
    pub mailbox_hash: u64,
}

impl View for Folder {
    type V = FolderView;

    open spec fn view(&self) -> FolderView {
        FolderView {
            name: self.name@,
            path: self.path@,
            unread_count: self.unread_count,
            total_count: self.total_count,
            mailbox_hash: self.mailbox_hash,
        }
    }
}

impl Clone for Folder {
    fn clone(&self) -> (r: Self)
        ensures
            r@ == self@,
    {
        Folder {
            name: self.name.clone(),
            path: self.path.clone(),
            unread_count: self.unread_count,
            total_count: self.total_count,
            mailbox_hash: self.mailbox_hash,
        }
    }
}

/// What the message list shows of one message. `is_read` and `is_starred` are the flags in
/// effect, which while an operation is pending are the locally intended ones.
#[derive(Debug)]
pub struct MessageSummary {
    pub account_id: String,
    pub uid: u64,
    pub subject: String,
    pub from: String,
    pub date: String,
    pub is_read: bool,
    pub is_starred: bool,
    pub has_attachments: bool,
    pub thread_id: Option<u64>,
    pub envelope_hash: u64,
    pub timestamp: i64,
    pub mailbox_hash: u64,
    pub message_id: String,
    pub in_reply_to: Option<String>,
    pub thread_depth: u32,
}

/// What a message summary holds, as plain values.
pub struct MessageSummaryView {
    pub account_id: Seq<char>,
    pub uid: u64,
    pub subject: Seq<char>,
    pub from: Seq<char>,
    pub date: Seq<char>,
    pub is_read: bool,
    pub is_starred: bool,
    pub has_attachments: bool,
    pub thread_id: Option<u64>,
    pub envelope_hash: u64,
    pub timestamp: i64,
    pub mailbox_hash: u64,
    pub message_id: Seq<char>,
    pub in_reply_to: Option<Seq<char>>,
    pub thread_depth: u32,
}

impl View for MessageSummary {
    type V = MessageSummaryView;

    open spec fn view(&self) -> MessageSummaryView {
        MessageSummaryView {
            account_id: self.account_id@,
            uid: self.uid,
            subject: self.subject@,
            from: self.from@,
            date: self.date@,
            is_read: self.is_read,
            is_starred: self.is_starred,
            has_attachments: self.has_attachments,
            thread_id: self.thread_id,
            envelope_hash: self.envelope_hash,
            timestamp: self.timestamp,
            mailbox_hash: self.mailbox_hash,
            message_id: self.message_id@,
            in_reply_to: opt_view(self.in_reply_to),
            thread_depth: self.thread_depth,
        }
    }
}

impl Clone for MessageSummary {
    fn clone(&self) -> (r: Self)
        ensures
            r@ == self@,
    {
        MessageSummary {
            account_id: self.account_id.clone(),
            uid: self.uid,
            subject: self.subject.clone(),
            from: self.from.clone(),
            date: self.date.clone(),
            is_read: self.is_read,
            is_starred: self.is_starred,
            has_attachments: self.has_attachments,
            thread_id: self.thread_id,
            envelope_hash: self.envelope_hash,
            timestamp: self.timestamp,
            mailbox_hash: self.mailbox_hash,
            message_id: self.message_id.clone(),
            in_reply_to: opt_clone(&self.in_reply_to),
            thread_depth: self.thread_depth,
        }
    }
}

/// An attachment with its content.
#[derive(Debug)]
pub struct AttachmentData {
    pub filename: String,
    pub mime_type: String,
    pub data: Vec<u8>,
}

/// What an attachment holds, as plain values.
pub struct AttachmentDataView {
    pub filename: Seq<char>,
    pub mime_type: Seq<char>,
    pub data: Seq<u8>,
}

impl View for AttachmentData {
    type V = AttachmentDataView;

    open spec fn view(&self) -> AttachmentDataView {
        AttachmentDataView { filename: self.filename@, mime_type: self.mime_type@, data: self.data@ }
    }
}

impl Clone for AttachmentData {
    fn clone(&self) -> (r: Self)
        ensures
            r@ == self@,
    {
        AttachmentData {
            filename: self.filename.clone(),
            mime_type: self.mime_type.clone(),
            data: self.data.clone(),
        }
    }
}

/// The description of an attachment, without its content.
#[derive(Debug, Clone)]
pub struct Attachment {
    pub filename: String,
    pub mime_type: String,
    pub size: u64,
}

/// The full body of a message for the preview.
#[derive(Debug, Clone)]
pub struct MessageBody {
    pub uid: u64,
    pub text_plain: Option<String>,
    pub text_html: Option<String>,
    pub rendered: String,
    pub attachments: Vec<Attachment>,
}

/// The state of the connection of one account.
#[derive(Debug)]
pub enum ConnectionState {
    Disconnected,
    Connecting,
    Connected,
    Syncing,
    Error(String),
}

/// The connection state, as plain values.
pub enum ConnectionStateView {
    Disconnected,
    Connecting,
    Connected,
    Syncing,
    Error(Seq<char>),
}

impl View for ConnectionState {
    type V = ConnectionStateView;

    open spec fn view(&self) -> ConnectionStateView {
        match self {
            ConnectionState::Disconnected => ConnectionStateView::Disconnected,
            ConnectionState::Connecting => ConnectionStateView::Connecting,
            ConnectionState::Connected => ConnectionStateView::Connected,
            ConnectionState::Syncing => ConnectionStateView::Syncing,
            ConnectionState::Error(e) => ConnectionStateView::Error(e@),
        }
    }
}

impl Clone for ConnectionState {
    fn clone(&self) -> (r: Self)
        ensures
            r@ == self@,
    {
        match self {
            ConnectionState::Disconnected => ConnectionState::Disconnected,
            ConnectionState::Connecting => ConnectionState::Connecting,
            ConnectionState::Connected => ConnectionState::Connected,
            ConnectionState::Syncing => ConnectionState::Syncing,
            ConnectionState::Error(e) => ConnectionState::Error(e.clone()),
        }
    }
}

impl ConnectionState {
    /// Whether a connection attempt or a synchronisation is under way.
    pub fn is_busy(&self) -> (r: bool)
        ensures
            r == (self@ is Connecting || self@ is Syncing),
    {
        match self {
            ConnectionState::Connecting => true,
            ConnectionState::Syncing => true,
            _ => false,
        }
    }
}

/// Copies a list of folders.
pub fn clone_folders(v: &Vec<Folder>) -> (r: Vec<Folder>)
    ensures
        crate::seqs::view_all(r@) == crate::seqs::view_all(v@),
{
    let mut r: Vec<Folder> = Vec::new();
    let mut i: usize = 0;
    while i < v.len()
        invariant
            i <= v.len(),
            r.len() == i,
            forall|j: int| 0 <= j < i ==> r@[j]@ == v@[j]@,
        decreases v.len() - i,
    {
        r.push(v[i].clone());
        i = i + 1;
    }
    assert(crate::seqs::view_all(r@) =~= crate::seqs::view_all(v@));
    r
}

/// Copies a list of message summaries.
pub fn clone_summaries(v: &Vec<MessageSummary>) -> (r: Vec<MessageSummary>)
    ensures
        crate::seqs::view_all(r@) == crate::seqs::view_all(v@),
{
    let mut r: Vec<MessageSummary> = Vec::new();
    let mut i: usize = 0;
    while i < v.len()
        invariant
            i <= v.len(),
            r.len() == i,
            forall|j: int| 0 <= j < i ==> r@[j]@ == v@[j]@,
        decreases v.len() - i,
    {
        r.push(v[i].clone());
        i = i + 1;
    }
    assert(crate::seqs::view_all(r@) =~= crate::seqs::view_all(v@));
    r
}

/// Copies a list of attachments.
pub fn clone_attachments(v: &Vec<AttachmentData>) -> (r: Vec<AttachmentData>)
    ensures
        crate::seqs::view_all(r@) == crate::seqs::view_all(v@),
{
    let mut r: Vec<AttachmentData> = Vec::new();
    let mut i: usize = 0;
    while i < v.len()
        invariant
            i <= v.len(),
            r.len() == i,
            forall|j: int| 0 <= j < i ==> r@[j]@ == v@[j]@,
        decreases v.len() - i,
    {
        r.push(v[i].clone());
        i = i + 1;
    }
    assert(crate::seqs::view_all(r@) =~= crate::seqs::view_all(v@));
    r
}

} // verus!
