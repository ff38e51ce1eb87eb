use crate::models::{clone_attachments, AttachmentData};
use crate::row_laws::{
    lemma_clear_pending_op_valid, lemma_remove_message_valid, lemma_revert_pending_op_valid,
    lemma_save_body_valid, lemma_update_flags_valid, rows_valid,
};
use crate::rows::{
    has_id, spec_clear_pending_op, spec_load_body, spec_remove_message, spec_revert_pending_op,
    spec_save_body, spec_update_flags, CachedBodyView, FolderRow, FolderRowView, MessageRow,
    MessageRowView,
};
use crate::seqs::{first_match, lemma_first_match, view_all};
use vstd::prelude::*;

verus! {

/// The cache of folders, messages, bodies and attachments of all accounts. It is the only
/// place where cached state changes.
pub struct CacheStore {
    pub(crate) folders: Vec<FolderRow>,
    pub(crate) messages: Vec<MessageRow>,
}

/// What a cache holds, as plain values.
pub struct CacheView {
    pub folders: Seq<FolderRowView>,
    pub messages: Seq<MessageRowView>,
}

/// A cached body as it is handed out: Markdown, plain text and attachments.
#[derive(Debug, Clone)]
pub struct CachedBody {
    pub markdown: String,
    pub plain: String,
    pub attachments: Vec<AttachmentData>,
}

impl View for CachedBody {
    type V = CachedBodyView;

    open spec fn view(&self) -> CachedBodyView {
        CachedBodyView {
            markdown: self.markdown@,
            plain: self.plain@,
            attachments: view_all(self.attachments@),
        }
    }
}

/// The view of an optional cached body.
pub open spec fn opt_body_view(b: Option<CachedBody>) -> Option<CachedBodyView> {
    match b {
        Some(c) => Some(c@),
        None => None,
    }
}

/// Whether no two folders of one account share a path or a mailbox id.
pub open spec fn folders_distinct(folders: Seq<FolderRowView>) -> bool {
    forall|i: int, j: int|
        0 <= i < folders.len() && 0 <= j < folders.len() && i != j && (#[trigger] folders[i]).account_id
            == (#[trigger] folders[j]).account_id ==> folders[i].folder.path
            != folders[j].folder.path && folders[i].folder.mailbox_hash
            != folders[j].folder.mailbox_hash
}

impl View for CacheStore {
    type V = CacheView;

    open(crate) spec fn view(&self) -> CacheView {
        CacheView { folders: view_all(self.folders@), messages: view_all(self.messages@) }
    }
}

impl CacheStore {
    /// Whether the cache is well formed: message ids are distinct, every message without a
    /// pending operation has local flags equal to the server's, and the folders of an
    /// account have distinct paths and mailbox ids.
    pub open spec fn wf(&self) -> bool {
        rows_valid(self@.messages) && folders_distinct(self@.folders)
    }

    /// An empty cache.
    pub fn new() -> (s: CacheStore)
        ensures
            s.wf(),
            s@.folders.len() == 0,
            s@.messages.len() == 0,
    {
        CacheStore { folders: Vec::new(), messages: Vec::new() }
    }

    /// The place of the row of message `id`.
    pub(crate) fn find_row(&self, id: u64) -> (r: Option<usize>)
        ensures
            match r {
                Some(i) => i < self.messages.len() && first_match(self@.messages, has_id(id))
                    == Some(i as int),
                None => first_match(self@.messages, has_id(id)) is None,
            },
    {
        let mut i: usize = 0;
        while i < self.messages.len()
            invariant
                i <= self.messages.len(),
                forall|j: int| 0 <= j < i ==> !has_id(id)(#[trigger] self@.messages[j]),
            decreases self.messages.len() - i,
        {
            if self.messages[i].envelope_hash == id {
                proof {
                    lemma_first_match(self@.messages, has_id(id), Some(i as int));
                }
                return Some(i);
            }
            i = i + 1;
        }
        proof {
            lemma_first_match(self@.messages, has_id(id), None);
        }
        None
    }

    /// The state of a message in the reconciliation of its flags, if the message is
    /// cached.
    pub fn flag_state(&self, envelope_hash: u64) -> (r: Option<crate::flags::FlagState>)
        ensures
            match first_match(self@.messages, has_id(envelope_hash)) {
                Some(i) => r is Some && r->0@ == crate::rows::spec_flag_state(self@.messages[i]),
                None => r is None,
            },
    {
        match self.find_row(envelope_hash) {
            Some(i) => {
                assert(self.messages@[i as int]@ == self@.messages[i as int]);
                Some(self.messages[i].flag_state())
            },
            None => None,
        }
    }

    /// Records what the user intends for a message: the row gets the given local flags and
    /// the tag of the operation that is now pending. A later call overwrites an earlier
    /// one. A message that is not cached is left alone.
    pub fn update_flags(&mut self, envelope_hash: u64, flags_local: u8, pending_op: String)
        requires
            old(self).wf(),
        ensures
            final(self).wf(),
            final(self)@.folders == old(self)@.folders,
            final(self)@.messages == spec_update_flags(
                old(self)@.messages,
                envelope_hash,
                flags_local,
                pending_op@,
            ),
    {
        proof {
            lemma_update_flags_valid(self@.messages, envelope_hash, flags_local, pending_op@);
        }
        match self.find_row(envelope_hash) {
            Some(i) => {
                self.messages[i].flags_local = flags_local;
                self.messages[i].pending_op = Some(pending_op);
                assert(self@.messages =~= spec_update_flags(
                    old(self)@.messages,
                    envelope_hash,
                    flags_local,
                    pending_op@,
                ));
            },
            None => {},
        }
    }

    /// Takes over the flags that the server confirmed for a message: both flag bytes get
    /// the confirmed value and nothing is pending any more, whatever was pending before.
    pub fn clear_pending_op(&mut self, envelope_hash: u64, flags_server: u8)
        requires
            old(self).wf(),
        ensures
            final(self).wf(),
            final(self)@.folders == old(self)@.folders,
            final(self)@.messages == spec_clear_pending_op(
                old(self)@.messages,
                envelope_hash,
                flags_server,
            ),
    {
        proof {
            lemma_clear_pending_op_valid(self@.messages, envelope_hash, flags_server);
        }
        match self.find_row(envelope_hash) {
            Some(i) => {
                self.messages[i].flags_server = flags_server;
                self.messages[i].flags_local = flags_server;
                self.messages[i].pending_op = None;
                assert(self@.messages =~= spec_clear_pending_op(
                    old(self)@.messages,
                    envelope_hash,
                    flags_server,
                ));
            },
            None => {},
        }
    }

    /// Takes over the flags that the server confirmed for one operation on a message.
    /// The row becomes synced only if that operation is still the pending one; a newer
    /// intent is not overwritten, and a confirmation for a row without a pending
    /// operation changes nothing.
    pub fn confirm_pending_op(&mut self, envelope_hash: u64, pending_op: &str, flags_server: u8)
        requires
            old(self).wf(),
        ensures
            final(self).wf(),
            final(self)@.folders == old(self)@.folders,
            final(self)@.messages == crate::rows::spec_confirm_pending_op(
                old(self)@.messages,
                envelope_hash,
                pending_op@,
                flags_server,
            ),
    {
        proof {
            crate::row_laws::lemma_confirm_pending_op_valid(
                self@.messages,
                envelope_hash,
                pending_op@,
                flags_server,
            );
        }
        match self.find_row(envelope_hash) {
            Some(i) => {
                assert(self.messages@[i as int]@ == self@.messages[i as int]);
                let same = match &self.messages[i].pending_op {
                    Some(p) => Some(crate::text::str_eq(p.as_str(), pending_op)),
                    None => None,
                };
                match same {
                    Some(true) => {
                        self.messages[i].flags_server = flags_server;
                        self.messages[i].flags_local = flags_server;
                        self.messages[i].pending_op = None;
                    },
                    Some(false) => {
                        self.messages[i].flags_server = flags_server;
                    },
                    None => {},
                }
                assert(self@.messages =~= crate::rows::spec_confirm_pending_op(
                    old(self)@.messages,
                    envelope_hash,
                    pending_op@,
                    flags_server,
                ));
            },
            None => {},
        }
    }

    /// Gives up what the user intended for a message: the local flags go back to the
    /// server's and nothing is pending any more.
    pub fn revert_pending_op(&mut self, envelope_hash: u64)
        requires
            old(self).wf(),
        ensures
            final(self).wf(),
            final(self)@.folders == old(self)@.folders,
            final(self)@.messages == spec_revert_pending_op(old(self)@.messages, envelope_hash),
    {
        proof {
            lemma_revert_pending_op_valid(self@.messages, envelope_hash);
        }
        match self.find_row(envelope_hash) {
            Some(i) => {
                let server = self.messages[i].flags_server;
                self.messages[i].flags_local = server;
                self.messages[i].pending_op = None;
                assert(self@.messages =~= spec_revert_pending_op(
                    old(self)@.messages,
                    envelope_hash,
                ));
            },
            None => {},
        }
    }

    /// Removes a message with its body and attachments.
    pub fn remove_message(&mut self, envelope_hash: u64)
        requires
            old(self).wf(),
        ensures
            final(self).wf(),
            final(self)@.folders == old(self)@.folders,
            final(self)@.messages == spec_remove_message(old(self)@.messages, envelope_hash),
    {
        proof {
            lemma_remove_message_valid(self@.messages, envelope_hash);
        }
        match self.find_row(envelope_hash) {
            Some(i) => {
                let _ = self.messages.remove(i);
                assert(self@.messages =~= spec_remove_message(old(self)@.messages, envelope_hash));
            },
            None => {},
        }
    }

    /// Stores the rendered body of a message and replaces its attachments by the given
    /// ones. A message that is not cached is left alone.
    pub fn save_body(
        &mut self,
        envelope_hash: u64,
        body_markdown: String,
        body_plain: String,
        attachments: Vec<AttachmentData>,
    )
        requires
            old(self).wf(),
        ensures
            final(self).wf(),
            final(self)@.folders == old(self)@.folders,
            final(self)@.messages == spec_save_body(
                old(self)@.messages,
                envelope_hash,
                body_markdown@,
                body_plain@,
                view_all(attachments@),
            ),
    {
        proof {
            lemma_save_body_valid(
                self@.messages,
                envelope_hash,
                body_markdown@,
                body_plain@,
                view_all(attachments@),
            );
        }
        match self.find_row(envelope_hash) {
            Some(i) => {
                self.messages[i].body_plain = Some(body_plain);
                self.messages[i].body_markdown = Some(body_markdown);
                self.messages[i].attachments = attachments;
                assert(self@.messages =~= spec_save_body(
                    old(self)@.messages,
                    envelope_hash,
                    body_markdown@,
                    body_plain@,
                    view_all(attachments@),
                ));
            },
            None => {},
        }
    }

    /// The cached body of a message with its attachments in their order. `None` is a miss:
    /// the message is not cached, or its body was never stored.
    pub fn load_body(&self, envelope_hash: u64) -> (r: Option<CachedBody>)
        ensures
            opt_body_view(r) == spec_load_body(self@.messages, envelope_hash),
    {
        match self.find_row(envelope_hash) {
            Some(i) => {
                let row = &self.messages[i];
                assert(row@ == self@.messages[i as int]);
                match &row.body_plain {
                    Some(plain) => {
                        let markdown = match &row.body_markdown {
                            Some(md) => md.clone(),
                            None => String::new(),
                        };
                        Some(
                            CachedBody {
                                markdown,
                                plain: plain.clone(),
                                attachments: clone_attachments(&row.attachments),
                            },
                        )
                    },
                    None => None,
                }
            },
            None => None,
        }
    }
}

} // verus!
