use crate::models::{AttachmentData, Folder, FolderView, MessageSummary, MessageSummaryView};
use crate::paging::{spec_load_messages, spec_search};
use crate::row_laws::rows_valid;
use crate::rows::{
    has_id, in_mailbox, not_of_account, spec_clear_pending_op, spec_load_body, spec_remove_message,
    spec_revert_pending_op, spec_save_body, spec_save_messages, spec_update_flags, CachedBodyView,
    FolderRow, FolderRowView, MessageRow, MessageRowView,
};
use crate::seqs::{first_match, keep, lemma_first_match, view_all};
use crate::store::{folders_distinct, opt_body_view, CacheStore, CacheView, CachedBody};
use crate::store_folders::{folders_clash, spec_load_folders, spec_save_folders, CacheError};
use crate::store_resync::folder_not_of;
use crate::text::str_eq;
use vstd::prelude::*;

verus! {

/// A request to the cache. The requests of all callers go through one queue and are
/// carried out one after the other.
#[derive(Debug, Clone)]
pub enum CacheCmd {
    SaveFolders { account: String, folders: Vec<Folder> },
    LoadFolders { account: String },
    SaveMessages { account: String, mailbox_hash: u64, messages: Vec<MessageSummary> },
    LoadMessages { account: String, mailbox_hash: u64, limit: u32, offset: u32 },
    MessageCount { account: String, mailbox_hash: u64 },
    LoadBody { envelope_hash: u64 },
    SaveBody {
        envelope_hash: u64,
        body_markdown: String,
        body_plain: String,
        attachments: Vec<AttachmentData>,
    },
    UpdateFlags { envelope_hash: u64, flags_local: u8, pending_op: String },
    ClearPendingOp { envelope_hash: u64, flags_server: u8 },
    ConfirmPendingOp { envelope_hash: u64, pending_op: String, flags_server: u8 },
    RevertPendingOp { envelope_hash: u64 },
    RemoveMessage { envelope_hash: u64 },
    /// A search, with the ids that the full-text index matched for the query.
    Search { account: String, query: String, hits: Vec<u64> },
    RemoveAccount { account: String },
}

/// The answer of the cache to a request.
#[derive(Debug, Clone)]
pub enum CacheReply {
    Done,
    Failed(CacheError),
    Folders(Vec<Folder>),
    Messages(Vec<MessageSummary>),
    Count(usize),
    Body(Option<CachedBody>),
}

/// An answer of the cache, as plain values.
pub enum CacheReplyView {
    Done,
    Failed(CacheError),
    Folders(Seq<FolderView>),
    Messages(Seq<MessageSummaryView>),
    Count(usize),
    Body(Option<CachedBodyView>),
}

impl View for CacheReply {
    type V = CacheReplyView;

    open spec fn view(&self) -> CacheReplyView {
        match self {
            CacheReply::Done => CacheReplyView::Done,
            CacheReply::Failed(e) => CacheReplyView::Failed(*e),
            CacheReply::Folders(f) => CacheReplyView::Folders(view_all(f@)),
            CacheReply::Messages(m) => CacheReplyView::Messages(view_all(m@)),
            CacheReply::Count(n) => CacheReplyView::Count(*n),
            CacheReply::Body(b) => CacheReplyView::Body(opt_body_view(*b)),
        }
    }
}

/// Whether a request can change the cache: every request but the five that only read.
pub open spec fn spec_changes_cache(cmd: CacheCmd) -> bool {
    !(cmd is LoadFolders || cmd is LoadMessages || cmd is MessageCount || cmd is LoadBody
        || cmd is Search)
}

impl CacheCmd {
    /// Whether the request can change the cache, so that the cache has to be written to
    /// disk after it.
    pub fn changes_cache(&self) -> (r: bool)
        ensures
            r == spec_changes_cache(*self),
    {
        match self {
            CacheCmd::LoadFolders { .. } => false,
            CacheCmd::LoadMessages { .. } => false,
            CacheCmd::MessageCount { .. } => false,
            CacheCmd::LoadBody { .. } => false,
            CacheCmd::Search { .. } => false,
            _ => true,
        }
    }
}

/// A request that only reads leaves the cache as it is.
pub proof fn lemma_reads_change_nothing(s: CacheView, cmd: CacheCmd)
    requires
        !spec_changes_cache(cmd),
    ensures
        spec_execute_state(s, cmd) == s,
{
}

/// What a request leaves in the cache.
pub open spec fn spec_execute_state(s: CacheView, cmd: CacheCmd) -> CacheView {
    match cmd {
        CacheCmd::SaveFolders { account, folders } => if folders_clash(view_all(folders@)) {
            s
        } else {
            CacheView { folders: spec_save_folders(s.folders, account@, view_all(folders@)), ..s }
        },
        CacheCmd::SaveMessages { account, mailbox_hash, messages } => CacheView {
            messages: spec_save_messages(s.messages, account@, mailbox_hash, view_all(messages@)),
            ..s
        },
        CacheCmd::SaveBody { envelope_hash, body_markdown, body_plain, attachments } => CacheView {
            messages: spec_save_body(
                s.messages,
                envelope_hash,
                body_markdown@,
                body_plain@,
                view_all(attachments@),
            ),
            ..s
        },
        CacheCmd::UpdateFlags { envelope_hash, flags_local, pending_op } => CacheView {
            messages: spec_update_flags(s.messages, envelope_hash, flags_local, pending_op@),
            ..s
        },
        CacheCmd::ClearPendingOp { envelope_hash, flags_server } => CacheView {
            messages: spec_clear_pending_op(s.messages, envelope_hash, flags_server),
            ..s
        },
        CacheCmd::ConfirmPendingOp { envelope_hash, pending_op, flags_server } => CacheView {
            messages: crate::rows::spec_confirm_pending_op(
                s.messages,
                envelope_hash,
                pending_op@,
                flags_server,
            ),
            ..s
        },
        CacheCmd::RevertPendingOp { envelope_hash } => CacheView {
            messages: spec_revert_pending_op(s.messages, envelope_hash),
            ..s
        },
        CacheCmd::RemoveMessage { envelope_hash } => CacheView {
            messages: spec_remove_message(s.messages, envelope_hash),
            ..s
        },
        CacheCmd::RemoveAccount { account } => CacheView {
            folders: keep(s.folders, folder_not_of(account@)),
            messages: keep(s.messages, not_of_account(account@)),
        },
        _ => s,
    }
}

/// What the cache answers to a request.
pub open spec fn spec_execute_reply(s: CacheView, cmd: CacheCmd) -> CacheReplyView {
    match cmd {
        CacheCmd::SaveFolders { account, folders } => if folders_clash(view_all(folders@)) {
            CacheReplyView::Failed(CacheError::FolderClash)
        } else {
            CacheReplyView::Done
        },
        CacheCmd::LoadFolders { account } => CacheReplyView::Folders(
            spec_load_folders(s.folders, account@),
        ),
        CacheCmd::LoadMessages { account, mailbox_hash, limit, offset } => CacheReplyView::Messages(
            spec_load_messages(s.messages, account@, mailbox_hash, limit, offset),
        ),
        CacheCmd::MessageCount { account, mailbox_hash } => CacheReplyView::Count(
            keep(s.messages, in_mailbox(account@, mailbox_hash)).len() as usize,
        ),
        CacheCmd::LoadBody { envelope_hash } => CacheReplyView::Body(
            spec_load_body(s.messages, envelope_hash),
        ),
        CacheCmd::Search { account, query, hits } => CacheReplyView::Messages(
            spec_search(s.messages, account@, query@, hits@),
        ),
        _ => CacheReplyView::Done,
    }
}

/// A row as it is taken in from disk: without a pending operation its local flags are
/// the server's.
pub open spec fn settled_row(r: MessageRowView) -> MessageRowView {
    if r.pending_op is None {
        MessageRowView { flags_local: r.flags_server, ..r }
    } else {
        r
    }
}

/// The message rows that are taken in from disk: each row in turn, settled, unless its
/// id is taken by a row before it.
pub open spec fn restored_messages(rows: Seq<MessageRowView>) -> Seq<MessageRowView>
    decreases rows.len(),
{
    if rows.len() == 0 {
        Seq::empty()
    } else {
        let before = restored_messages(rows.drop_last());
        match first_match(before, has_id(rows.last().envelope_hash)) {
            Some(_) => before,
            None => before.push(settled_row(rows.last())),
        }
    }
}

/// Whether a folder row can stand beside others: no folder of its account among them
/// has its path or its mailbox id.
pub open spec fn folder_fits_among(rows: Seq<FolderRowView>, row: FolderRowView) -> bool {
    forall|j: int|
        0 <= j < rows.len() && (#[trigger] rows[j]).account_id == row.account_id
            ==> rows[j].folder.path != row.folder.path && rows[j].folder.mailbox_hash
            != row.folder.mailbox_hash
}

/// The folder rows that are taken in from disk: each row in turn, unless it cannot
/// stand beside the rows before it.
pub open spec fn restored_folders(rows: Seq<FolderRowView>) -> Seq<FolderRowView>
    decreases rows.len(),
{
    if rows.len() == 0 {
        Seq::empty()
    } else {
        let before = restored_folders(rows.drop_last());
        if folder_fits_among(before, rows.last()) {
            before.push(rows.last())
        } else {
            before
        }
    }
}

/// Rows that a well-formed cache wrote are taken in as they are.
pub proof fn lemma_restore_valid_messages(rows: Seq<MessageRowView>)
    requires
        rows_valid(rows),
    ensures
        restored_messages(rows) == rows,
    decreases rows.len(),
{
    if rows.len() > 0 {
        let init = rows.drop_last();
        assert forall|a: int, b: int| 0 <= a < init.len() && 0 <= b < init.len() && a != b implies (
        #[trigger] init[a]).envelope_hash != (#[trigger] init[b]).envelope_hash by {
            assert(init[a] == rows[a] && init[b] == rows[b]);
        }
        assert forall|a: int| 0 <= a < init.len() && (#[trigger] init[a]).pending_op is None implies init[a].flags_local
            == init[a].flags_server by {
            assert(init[a] == rows[a]);
        }
        lemma_restore_valid_messages(init);
        assert forall|j: int| 0 <= j < init.len() implies !has_id(rows.last().envelope_hash)(
            #[trigger] init[j],
        ) by {
            assert(init[j] == rows[j]);
            assert(rows[rows.len() - 1] == rows.last());
        }
        lemma_first_match(init, has_id(rows.last().envelope_hash), None);
        assert(rows[rows.len() - 1] == rows.last());
        assert(settled_row(rows.last()) == rows.last());
        assert(init.push(rows.last()) =~= rows);
    }
}

/// Folder rows that a well-formed cache wrote are taken in as they are.
pub proof fn lemma_restore_valid_folders(rows: Seq<FolderRowView>)
    requires
        folders_distinct(rows),
    ensures
        restored_folders(rows) == rows,
    decreases rows.len(),
{
    if rows.len() > 0 {
        let init = rows.drop_last();
        assert forall|a: int, b: int|
            0 <= a < init.len() && 0 <= b < init.len() && a != b && (#[trigger] init[a]).account_id
                == (#[trigger] init[b]).account_id implies init[a].folder.path
            != init[b].folder.path && init[a].folder.mailbox_hash
            != init[b].folder.mailbox_hash by {
            assert(init[a] == rows[a] && init[b] == rows[b]);
        }
        lemma_restore_valid_folders(init);
        assert forall|j: int|
            0 <= j < init.len() && (#[trigger] init[j]).account_id
                == rows.last().account_id implies init[j].folder.path != rows.last().folder.path
            && init[j].folder.mailbox_hash != rows.last().folder.mailbox_hash by {
            assert(init[j] == rows[j]);
            assert(rows[rows.len() - 1] == rows.last());
        }
        assert(init.push(rows.last()) =~= rows);
    }
}

impl CacheStore {
    /// Carries out one request. No request makes the cache ill-formed, and none fails
    /// but a request to store folders that clash, which changes nothing.
    pub fn execute(&mut self, cmd: CacheCmd) -> (reply: CacheReply)
        requires
            old(self).wf(),
        ensures
            final(self).wf(),
            final(self)@ == spec_execute_state(old(self)@, cmd),
            reply@ == spec_execute_reply(old(self)@, cmd),
    {
        match cmd {
            CacheCmd::SaveFolders { account, folders } => {
                match self.save_folders(account.as_str(), folders) {
                    Ok(_) => CacheReply::Done,
                    Err(e) => CacheReply::Failed(e),
                }
            },
            CacheCmd::LoadFolders { account } => CacheReply::Folders(
                self.load_folders(account.as_str()),
            ),
            CacheCmd::SaveMessages { account, mailbox_hash, messages } => {
                self.save_messages(account.as_str(), mailbox_hash, messages);
                CacheReply::Done
            },
            CacheCmd::LoadMessages { account, mailbox_hash, limit, offset } => CacheReply::Messages(
                self.load_messages(account.as_str(), mailbox_hash, limit, offset),
            ),
            CacheCmd::MessageCount { account, mailbox_hash } => CacheReply::Count(
                self.message_count(account.as_str(), mailbox_hash),
            ),
            CacheCmd::LoadBody { envelope_hash } => CacheReply::Body(self.load_body(envelope_hash)),
            CacheCmd::SaveBody { envelope_hash, body_markdown, body_plain, attachments } => {
                self.save_body(envelope_hash, body_markdown, body_plain, attachments);
                CacheReply::Done
            },
            CacheCmd::UpdateFlags { envelope_hash, flags_local, pending_op } => {
                self.update_flags(envelope_hash, flags_local, pending_op);
                CacheReply::Done
            },
            CacheCmd::ClearPendingOp { envelope_hash, flags_server } => {
                self.clear_pending_op(envelope_hash, flags_server);
                CacheReply::Done
            },
            CacheCmd::ConfirmPendingOp { envelope_hash, pending_op, flags_server } => {
                self.confirm_pending_op(envelope_hash, pending_op.as_str(), flags_server);
                CacheReply::Done
            },
            CacheCmd::RevertPendingOp { envelope_hash } => {
                self.revert_pending_op(envelope_hash);
                CacheReply::Done
            },
            CacheCmd::RemoveMessage { envelope_hash } => {
                self.remove_message(envelope_hash);
                CacheReply::Done
            },
            CacheCmd::Search { account, query, hits } => CacheReply::Messages(
                self.search(account.as_str(), query.as_str(), &hits),
            ),
            CacheCmd::RemoveAccount { account } => {
                self.remove_account(account.as_str());
                CacheReply::Done
            },
        }
    }

    /// A copy of every message row, for writing the cache to disk.
    pub fn message_rows(&self) -> (rows: Vec<MessageRow>)
        ensures
            view_all(rows@) == self@.messages,
    {
        let mut rows: Vec<MessageRow> = Vec::new();
        let mut i: usize = 0;
        while i < self.messages.len()
            invariant
                i <= self.messages.len(),
                rows.len() == i,
                forall|j: int| 0 <= j < i ==> rows@[j]@ == self.messages@[j]@,
            decreases self.messages.len() - i,
        {
            rows.push(self.messages[i].clone());
            i = i + 1;
        }
        assert(view_all(rows@) =~= self@.messages);
        rows
    }

    /// A copy of every folder row, for writing the cache to disk.
    pub fn folder_rows(&self) -> (rows: Vec<FolderRow>)
        ensures
            view_all(rows@) == self@.folders,
    {
        let mut rows: Vec<FolderRow> = Vec::new();
        let mut i: usize = 0;
        while i < self.folders.len()
            invariant
                i <= self.folders.len(),
                rows.len() == i,
                forall|j: int| 0 <= j < i ==> rows@[j]@ == self.folders@[j]@,
            decreases self.folders.len() - i,
        {
            rows.push(self.folders[i].clone());
            i = i + 1;
        }
        assert(view_all(rows@) =~= self@.folders);
        rows
    }

    /// Whether a folder row can be added: no folder of its account has its path or its
    /// mailbox id.
    fn folder_fits(&self, row: &FolderRow) -> (r: bool)
        ensures
            r == folder_fits_among(self@.folders, row@),
    {
        let mut i: usize = 0;
        while i < self.folders.len()
            invariant
                i <= self.folders.len(),
                forall|j: int|
                    0 <= j < i && (#[trigger] self@.folders[j]).account_id == row@.account_id
                        ==> self@.folders[j].folder.path != row@.folder.path
                        && self@.folders[j].folder.mailbox_hash != row@.folder.mailbox_hash,
            decreases self.folders.len() - i,
        {
            let f = &self.folders[i];
            assert(f@ == self@.folders[i as int]);
            if str_eq(f.account_id.as_str(), row.account_id.as_str()) && (f.folder.mailbox_hash
                == row.folder.mailbox_hash || str_eq(
                f.folder.path.as_str(),
                row.folder.path.as_str(),
            )) {
                return false;
            }
            i = i + 1;
        }
        true
    }

    /// Builds a cache from rows that were read from disk. Rows that cannot stand beside
    /// the ones before them are left out: a message whose id is taken, a folder whose
    /// path or mailbox id is taken in its account. A message without a pending
    /// operation gets the flags of the server as its local flags. Rows that were
    /// written by a well-formed cache all come back as they were.
    pub fn restore(folders: Vec<FolderRow>, messages: Vec<MessageRow>) -> (s: CacheStore)
        ensures
            s.wf(),
            s@.messages == restored_messages(view_all(messages@)),
            s@.folders == restored_folders(view_all(folders@)),
            rows_valid(view_all(messages@)) ==> s@.messages == view_all(messages@),
            folders_distinct(view_all(folders@)) ==> s@.folders == view_all(folders@),
    {
        let mut s = CacheStore::new();
        let ghost given = view_all(messages@);
        let mut i: usize = 0;
        proof {
            assert(given.take(0) =~= Seq::<MessageRowView>::empty());
            assert(s@.messages =~= restored_messages(given.take(0)));
        }
        while i < messages.len()
            invariant
                i <= messages.len(),
                given == view_all(messages@),
                s.wf(),
                s@.folders.len() == 0,
                s@.messages == restored_messages(given.take(i as int)),
            decreases messages.len() - i,
        {
            let row = messages[i].clone();
            assert(row@ == given[i as int]);
            let ghost before = s@.messages;
            proof {
                assert(given.take(i + 1).drop_last() =~= given.take(i as int));
                assert(given.take(i + 1).last() == given[i as int]);
            }
            match s.find_row(row.envelope_hash) {
                None => {
                    proof {
                        lemma_first_match(before, has_id(row.envelope_hash), None);
                    }
                    let mut row = row;
                    if row.pending_op.is_none() {
                        row.flags_local = row.flags_server;
                    }
                    let ghost pushed = row@;
                    assert(pushed == settled_row(given[i as int]));
                    s.messages.push(row);
                    proof {
                        assert(s@.messages =~= before.push(pushed));
                        assert(s@.folders =~= Seq::<FolderRowView>::empty());
                        let out = s@.messages;
                        assert forall|a: int, b: int|
                            0 <= a < out.len() && 0 <= b < out.len() && a != b implies (
                        #[trigger] out[a]).envelope_hash != (#[trigger] out[b]).envelope_hash by {
                            if a < before.len() && b < before.len() {
                                assert(out[a] == before[a] && out[b] == before[b]);
                            } else {
                                let c = if a < before.len() { a } else { b };
                                assert(out[c] == before[c]);
                                assert(!has_id(pushed.envelope_hash)(before[c]));
                            }
                        }
                        assert forall|a: int|
                            0 <= a < out.len() && (#[trigger] out[a]).pending_op is None implies out[a].flags_local
                            == out[a].flags_server by {
                            if a < before.len() {
                                assert(out[a] == before[a]);
                            }
                        }
                    }
                },
                Some(_) => {},
            }
            i = i + 1;
        }
        let ghost kept = s@.messages;
        let ghost givenf = view_all(folders@);
        let mut k: usize = 0;
        proof {
            assert(given.take(i as int) =~= given);
            assert(givenf.take(0) =~= Seq::<FolderRowView>::empty());
            assert(s@.folders =~= restored_folders(givenf.take(0)));
        }
        while k < folders.len()
            invariant
                k <= folders.len(),
                givenf == view_all(folders@),
                s.wf(),
                s@.messages == kept,
                s@.folders == restored_folders(givenf.take(k as int)),
            decreases folders.len() - k,
        {
            let row = folders[k].clone();
            assert(row@ == givenf[k as int]);
            let ghost before = s@.folders;
            proof {
                assert(givenf.take(k + 1).drop_last() =~= givenf.take(k as int));
                assert(givenf.take(k + 1).last() == givenf[k as int]);
            }
            if s.folder_fits(&row) {
                s.folders.push(row);
                proof {
                    assert(s@.folders =~= before.push(givenf[k as int]));
                    assert(s@.messages =~= kept);
                    let out = s@.folders;
                    assert forall|a: int, b: int|
                        0 <= a < out.len() && 0 <= b < out.len() && a != b && (#[trigger] out[a]).account_id
                            == (#[trigger] out[b]).account_id implies out[a].folder.path
                        != out[b].folder.path && out[a].folder.mailbox_hash
                        != out[b].folder.mailbox_hash by {
                        if a < before.len() && b < before.len() {
                            assert(out[a] == before[a] && out[b] == before[b]);
                        } else {
                            let c = if a < before.len() { a } else { b };
                            assert(out[c] == before[c]);
                        }
                    }
                }
            }
            k = k + 1;
        }
        proof {
            assert(givenf.take(k as int) =~= givenf);
            if rows_valid(given) {
                lemma_restore_valid_messages(given);
            }
            if folders_distinct(givenf) {
                lemma_restore_valid_folders(givenf);
            }
        }
        s
    }
}

} // verus!
