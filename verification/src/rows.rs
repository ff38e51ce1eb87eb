use crate::flags::{spec_flags_from_u8, spec_flags_to_u8, FlagState, FlagStateView};
use crate::models::{AttachmentData, AttachmentDataView, Folder, FolderView, MessageSummaryView};
use crate::seqs::{first_match, keep, view_all};
use crate::text::{opt_clone, opt_view};
use vstd::prelude::*;

verus! {

/// One cached message: what the server last reported, what the user intends meanwhile, and
/// the rendered body once it was fetched.
#[derive(Debug)]
pub struct MessageRow {
    pub account_id: String,
    pub mailbox_hash: u64,
    pub envelope_hash: u64,
    pub subject: String,
    pub sender: String,
    pub date: String,
    pub timestamp: i64,
    pub has_attachments: bool,
    pub thread_id: Option<u64>,
    pub message_id: String,
    pub in_reply_to: Option<String>,
    pub thread_depth: u32,
    pub flags_server: u8,
    pub flags_local: u8,
    pub pending_op: Option<String>,
    pub body_plain: Option<String>,
    pub body_markdown: Option<String>,
    pub attachments: Vec<AttachmentData>,
}

/// What a cached message holds, as plain values.
pub struct MessageRowView {
    pub account_id: Seq<char>,
    pub mailbox_hash: u64,
    pub envelope_hash: u64,
    pub subject: Seq<char>,
    pub sender: Seq<char>,
    pub date: Seq<char>,
    pub timestamp: i64,
    pub has_attachments: bool,
    pub thread_id: Option<u64>,
    pub message_id: Seq<char>,
    pub in_reply_to: Option<Seq<char>>,
    pub thread_depth: u32,
    pub flags_server: u8,
    pub flags_local: u8,
    pub pending_op: Option<Seq<char>>,
    pub body_plain: Option<Seq<char>>,
    pub body_markdown: Option<Seq<char>>,
    pub attachments: Seq<AttachmentDataView>,
}

impl View for MessageRow {
    type V = MessageRowView;

    open spec fn view(&self) -> MessageRowView {
        MessageRowView {
            account_id: self.account_id@,
            mailbox_hash: self.mailbox_hash,
            envelope_hash: self.envelope_hash,
            subject: self.subject@,
            sender: self.sender@,
            date: self.date@,
            timestamp: self.timestamp,
            has_attachments: self.has_attachments,
            thread_id: self.thread_id,
            message_id: self.message_id@,
            in_reply_to: opt_view(self.in_reply_to),
            thread_depth: self.thread_depth,
            flags_server: self.flags_server,
            flags_local: self.flags_local,
            pending_op: opt_view(self.pending_op),
            body_plain: opt_view(self.body_plain),
            body_markdown: opt_view(self.body_markdown),
            attachments: view_all(self.attachments@),
        }
    }
}

impl Clone for MessageRow {
    fn clone(&self) -> (r: Self)
        ensures
            r@ == self@,
    {
        MessageRow {
            account_id: self.account_id.clone(),
            mailbox_hash: self.mailbox_hash,
            envelope_hash: self.envelope_hash,
            subject: self.subject.clone(),
            sender: self.sender.clone(),
            date: self.date.clone(),
            timestamp: self.timestamp,
            has_attachments: self.has_attachments,
            thread_id: self.thread_id,
            message_id: self.message_id.clone(),
            in_reply_to: opt_clone(&self.in_reply_to),
            thread_depth: self.thread_depth,
            flags_server: self.flags_server,
            flags_local: self.flags_local,
            pending_op: opt_clone(&self.pending_op),
            body_plain: opt_clone(&self.body_plain),
            body_markdown: opt_clone(&self.body_markdown),
            attachments: crate::models::clone_attachments(&self.attachments),
        }
    }
}

/// One cached folder with the account that owns it.
#[derive(Debug)]
pub struct FolderRow {
    pub account_id: String,
    pub folder: Folder,
}

/// What a cached folder holds, as plain values.
pub struct FolderRowView {
    pub account_id: Seq<char>,
    pub folder: FolderView,
}

impl View for FolderRow {
    type V = FolderRowView;

    open spec fn view(&self) -> FolderRowView {
        FolderRowView { account_id: self.account_id@, folder: self.folder@ }
    }
}

impl Clone for FolderRow {
    fn clone(&self) -> (r: Self)
        ensures
            r@ == self@,
    {
        FolderRow { account_id: self.account_id.clone(), folder: self.folder.clone() }
    }
}

/// The test for the row of message `id`.
pub open spec fn has_id(id: u64) -> spec_fn(MessageRowView) -> bool {
    |r: MessageRowView| r.envelope_hash == id
}

/// The test for the rows of one mailbox of one account.
pub open spec fn in_mailbox(account: Seq<char>, mailbox: u64) -> spec_fn(MessageRowView) -> bool {
    |r: MessageRowView| r.account_id == account && r.mailbox_hash == mailbox
}

/// The test for the rows that a resynchronisation of a mailbox leaves in place: those of
/// other mailboxes, and those with a pending operation.
pub open spec fn survives_resync(account: Seq<char>, mailbox: u64) -> spec_fn(
    MessageRowView,
) -> bool {
    |r: MessageRowView| !(r.account_id == account && r.mailbox_hash == mailbox) || r.pending_op is Some
}

/// The test for the rows that do not belong to an account.
pub open spec fn not_of_account(account: Seq<char>) -> spec_fn(MessageRowView) -> bool {
    |r: MessageRowView| r.account_id != account
}

/// The test for the rows that belong to an account.
pub open spec fn of_account(account: Seq<char>) -> spec_fn(MessageRowView) -> bool {
    |r: MessageRowView| r.account_id == account
}

/// Whether every row without a pending operation has local flags equal to the server's.
pub open spec fn flags_consistent(rows: Seq<MessageRowView>) -> bool {
    forall|i: int|
        0 <= i < rows.len() && (#[trigger] rows[i]).pending_op is None ==> rows[i].flags_local
            == rows[i].flags_server
}

/// Whether no two rows share a message id.
pub open spec fn ids_distinct(rows: Seq<MessageRowView>) -> bool {
    forall|i: int, j: int|
        0 <= i < rows.len() && 0 <= j < rows.len() && i != j ==> (#[trigger] rows[i]).envelope_hash
            != (#[trigger] rows[j]).envelope_hash
}

/// The flags that the user sees: the local ones while an operation is pending, the
/// server's otherwise.
pub open spec fn effective_flags(r: MessageRowView) -> u8 {
    if r.pending_op is Some {
        r.flags_local
    } else {
        r.flags_server
    }
}

/// The state of a row in the reconciliation of its flags: pending with the intended
/// flags and the tag of the operation, or synced.
pub open spec fn spec_flag_state(r: MessageRowView) -> FlagStateView {
    match r.pending_op {
        Some(tag) => FlagStateView::Pending { intended: r.flags_local, tag: tag },
        None => FlagStateView::Synced,
    }
}

/// The flags in effect are the intended ones of a pending row and the server's of a
/// synced one.
pub proof fn lemma_effective_flags_by_state(r: MessageRowView)
    ensures
        effective_flags(r) == (match spec_flag_state(r) {
            FlagStateView::Pending { intended, tag } => intended,
            FlagStateView::Synced => r.flags_server,
        }),
{
}

impl MessageRow {
    /// The state of the row in the reconciliation of its flags.
    pub fn flag_state(&self) -> (state: FlagState)
        ensures
            state@ == spec_flag_state(self@),
    {
        match &self.pending_op {
            Some(tag) => FlagState::Pending { intended: self.flags_local, tag: tag.clone() },
            None => FlagState::Synced,
        }
    }
}

/// The row that a freshly fetched message gets: server and local flags agree, nothing is
/// pending, and no body is cached.
pub open spec fn fresh_row(account: Seq<char>, mailbox: u64, m: MessageSummaryView) -> MessageRowView {
    MessageRowView {
        account_id: account,
        mailbox_hash: mailbox,
        envelope_hash: m.envelope_hash,
        subject: m.subject,
        sender: m.from,
        date: m.date,
        timestamp: m.timestamp,
        has_attachments: m.has_attachments,
        thread_id: m.thread_id,
        message_id: m.message_id,
        in_reply_to: m.in_reply_to,
        thread_depth: m.thread_depth,
        flags_server: spec_flags_to_u8(m.is_read, m.is_starred),
        flags_local: spec_flags_to_u8(m.is_read, m.is_starred),
        pending_op: None,
        body_plain: None,
        body_markdown: None,
        attachments: Seq::empty(),
    }
}

/// A pending row after a resynchronisation: what the server reports is taken over, the
/// local flags, the pending operation and the cached body stay.
pub open spec fn refreshed_row(r: MessageRowView, m: MessageSummaryView) -> MessageRowView {
    MessageRowView {
        flags_server: spec_flags_to_u8(m.is_read, m.is_starred),
        subject: m.subject,
        sender: m.from,
        date: m.date,
        timestamp: m.timestamp,
        has_attachments: m.has_attachments,
        thread_id: m.thread_id,
        message_id: m.message_id,
        in_reply_to: m.in_reply_to,
        thread_depth: m.thread_depth,
        ..r
    }
}

/// The rows after one fetched message was merged in: a pending row of the mailbox with
/// its id is refreshed; any other row with its id makes the message be ignored; without
/// such a row the message gets a fresh row at the end.
pub open spec fn resync_one(
    rows: Seq<MessageRowView>,
    account: Seq<char>,
    mailbox: u64,
    m: MessageSummaryView,
) -> Seq<MessageRowView> {
    match first_match(rows, has_id(m.envelope_hash)) {
        Some(i) => if in_mailbox(account, mailbox)(rows[i]) && rows[i].pending_op is Some {
            rows.update(i, refreshed_row(rows[i], m))
        } else {
            rows
        },
        None => rows.push(fresh_row(account, mailbox, m)),
    }
}

/// The rows after the fetched messages were merged in, one after the other.
pub open spec fn resync_all(
    rows: Seq<MessageRowView>,
    account: Seq<char>,
    mailbox: u64,
    msgs: Seq<MessageSummaryView>,
) -> Seq<MessageRowView>
    decreases msgs.len(),
{
    if msgs.len() == 0 {
        rows
    } else {
        resync_one(resync_all(rows, account, mailbox, msgs.drop_last()), account, mailbox, msgs.last())
    }
}

/// The rows after a full resynchronisation of one mailbox: its rows without a pending
/// operation go, with their bodies and attachments, and the fetched messages are merged in.
pub open spec fn spec_save_messages(
    rows: Seq<MessageRowView>,
    account: Seq<char>,
    mailbox: u64,
    msgs: Seq<MessageSummaryView>,
) -> Seq<MessageRowView> {
    resync_all(keep(rows, survives_resync(account, mailbox)), account, mailbox, msgs)
}

/// The summary that the message list shows for a row, with the flags in effect.
pub open spec fn summary_of(r: MessageRowView) -> MessageSummaryView {
    MessageSummaryView {
        account_id: r.account_id,
        uid: r.envelope_hash,
        subject: r.subject,
        from: r.sender,
        date: r.date,
        is_read: spec_flags_from_u8(effective_flags(r)).0,
        is_starred: spec_flags_from_u8(effective_flags(r)).1,
        has_attachments: r.has_attachments,
        thread_id: r.thread_id,
        envelope_hash: r.envelope_hash,
        timestamp: r.timestamp,
        mailbox_hash: r.mailbox_hash,
        message_id: r.message_id,
        in_reply_to: r.in_reply_to,
        thread_depth: r.thread_depth,
    }
}

/// The summaries of a sequence of rows, in the same order.
pub open spec fn summaries_of(rows: Seq<MessageRowView>) -> Seq<MessageSummaryView> {
    Seq::new(rows.len(), |i: int| summary_of(rows[i]))
}

/// The rows after the user's intent for message `id` was recorded: its local flags and
/// its pending operation are overwritten, whatever they were.
pub open spec fn spec_update_flags(
    rows: Seq<MessageRowView>,
    id: u64,
    flags: u8,
    tag: Seq<char>,
) -> Seq<MessageRowView> {
    match first_match(rows, has_id(id)) {
        Some(i) => rows.update(
            i,
            MessageRowView { flags_local: flags, pending_op: Some(tag), ..rows[i] },
        ),
        None => rows,
    }
}

/// The rows after the server confirmed flags for message `id`: both flag bytes take the
/// confirmed value and nothing is pending.
pub open spec fn spec_clear_pending_op(rows: Seq<MessageRowView>, id: u64, flags: u8) -> Seq<
    MessageRowView,
> {
    match first_match(rows, has_id(id)) {
        Some(i) => rows.update(
            i,
            MessageRowView { flags_server: flags, flags_local: flags, pending_op: None, ..rows[i] },
        ),
        None => rows,
    }
}

/// The rows after the server confirmed flags for the operation with the given tag on
/// message `id`. If that operation is still the pending one, the row becomes synced with
/// the confirmed flags. If another operation has become pending meanwhile, the confirmed
/// flags are taken over as the server's and the newer intent stays. If nothing is
/// pending, the confirmation comes too late and changes nothing.
pub open spec fn spec_confirm_pending_op(
    rows: Seq<MessageRowView>,
    id: u64,
    tag: Seq<char>,
    flags: u8,
) -> Seq<MessageRowView> {
    match first_match(rows, has_id(id)) {
        Some(i) => match rows[i].pending_op {
            Some(pending) => if pending == tag {
                rows.update(
                    i,
                    MessageRowView {
                        flags_server: flags,
                        flags_local: flags,
                        pending_op: None,
                        ..rows[i]
                    },
                )
            } else {
                rows.update(i, MessageRowView { flags_server: flags, ..rows[i] })
            },
            None => rows,
        },
        None => rows,
    }
}

/// The rows after the operation on message `id` failed: the local flags go back to the
/// server's and nothing is pending.
pub open spec fn spec_revert_pending_op(rows: Seq<MessageRowView>, id: u64) -> Seq<MessageRowView> {
    match first_match(rows, has_id(id)) {
        Some(i) => rows.update(
            i,
            MessageRowView { flags_local: rows[i].flags_server, pending_op: None, ..rows[i] },
        ),
        None => rows,
    }
}

/// The rows without the row of message `id`.
pub open spec fn spec_remove_message(rows: Seq<MessageRowView>, id: u64) -> Seq<MessageRowView> {
    match first_match(rows, has_id(id)) {
        Some(i) => rows.remove(i),
        None => rows,
    }
}

/// The rows after the rendered body of message `id` was stored with its attachments.
pub open spec fn spec_save_body(
    rows: Seq<MessageRowView>,
    id: u64,
    markdown: Seq<char>,
    plain: Seq<char>,
    attachments: Seq<AttachmentDataView>,
) -> Seq<MessageRowView> {
    match first_match(rows, has_id(id)) {
        Some(i) => rows.update(
            i,
            MessageRowView {
                body_plain: Some(plain),
                body_markdown: Some(markdown),
                attachments: attachments,
                ..rows[i]
            },
        ),
        None => rows,
    }
}

/// A cached body: the rendered Markdown, the rendered plain text and the attachments.
pub struct CachedBodyView {
    pub markdown: Seq<char>,
    pub plain: Seq<char>,
    pub attachments: Seq<AttachmentDataView>,
}

/// The cached body of message `id`. A message that is not cached, or whose plain body was
/// never stored, has none; a missing Markdown body counts as empty.
pub open spec fn spec_load_body(rows: Seq<MessageRowView>, id: u64) -> Option<CachedBodyView> {
    match first_match(rows, has_id(id)) {
        Some(i) => match rows[i].body_plain {
            Some(plain) => Some(
                CachedBodyView {
                    markdown: match rows[i].body_markdown {
                        Some(md) => md,
                        None => Seq::empty(),
                    },
                    plain: plain,
                    attachments: rows[i].attachments,
                },
            ),
            None => None,
        },
        None => None,
    }
}

} // verus!
