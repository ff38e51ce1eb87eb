use crate::flags::flags_to_u8;
use crate::models::MessageSummary;
use crate::row_laws::{lemma_keep_valid, lemma_resync_one_valid};
use crate::rows::{
    fresh_row, not_of_account, resync_all, resync_one, spec_save_messages, survives_resync,
    FolderRowView, MessageRow, MessageRowView,
};
use crate::seqs::{keep, view_all};
use crate::store::{folders_distinct, CacheStore};
use crate::text::{opt_clone, str_eq};
use vstd::prelude::*;

verus! {

/// The test for the folders that do not belong to an account.
pub open spec fn folder_not_of(account: Seq<char>) -> spec_fn(FolderRowView) -> bool {
    |f: FolderRowView| f.account_id != account
}

/// Dropping folders keeps them distinct.
pub proof fn lemma_keep_folders_distinct(folders: Seq<FolderRowView>, p: spec_fn(FolderRowView) -> bool)
    requires
        folders_distinct(folders),
    ensures
        folders_distinct(keep(folders, p)),
        forall|i: int| 0 <= i < keep(folders, p).len() ==> folders.contains(#[trigger] keep(folders, p)[i]) && p(
            keep(folders, p)[i],
        ),
    decreases folders.len(),
{
    crate::seqs::lemma_keep_members(folders, p);
    if folders.len() > 0 {
        let t = folders.drop_last();
        assert forall|i: int, j: int|
            0 <= i < t.len() && 0 <= j < t.len() && i != j && (#[trigger] t[i]).account_id == (
            #[trigger] t[j]).account_id implies t[i].folder.path != t[j].folder.path
            && t[i].folder.mailbox_hash != t[j].folder.mailbox_hash by {
            assert(t[i] == folders[i] && t[j] == folders[j]);
        }
        lemma_keep_folders_distinct(t, p);
        let k = keep(folders, p);
        let kt = keep(t, p);
        if p(folders.last()) {
            assert forall|i: int, j: int|
                0 <= i < k.len() && 0 <= j < k.len() && i != j && (#[trigger] k[i]).account_id == (
                #[trigger] k[j]).account_id implies k[i].folder.path != k[j].folder.path
                && k[i].folder.mailbox_hash != k[j].folder.mailbox_hash by {
                if i < kt.len() && j < kt.len() {
                    assert(k[i] == kt[i] && k[j] == kt[j]);
                } else {
                    let a = if i < kt.len() { i } else { j };
                    assert(t.contains(kt[a]));
                    let x = choose|x: int| 0 <= x < t.len() && t[x] == kt[a];
                    assert(folders[x] == kt[a]);
                    assert(folders[folders.len() - 1] == folders.last());
                }
            }
        }
    }
}

impl CacheStore {
    /// Removes the rows of a mailbox that have no pending operation.
    fn purge_mailbox(&mut self, account: &str, mailbox_hash: u64)
        requires
            old(self).wf(),
        ensures
            final(self).wf(),
            final(self)@.folders == old(self)@.folders,
            final(self)@.messages == keep(
                old(self)@.messages,
                survives_resync(account@, mailbox_hash),
            ),
    {
        let ghost orig = self@.messages;
        let ghost p = survives_resync(account@, mailbox_hash);
        let mut i: usize = 0;
        let ghost mut k: int = 0;
        proof {
            assert(orig.take(0) =~= Seq::<MessageRowView>::empty());
            assert(orig.skip(0) =~= orig);
            assert(keep(orig.take(0), p) + orig.skip(0) =~= orig);
        }
        while i < self.messages.len()
            invariant
                p == survives_resync(account@, mailbox_hash),
                0 <= k <= orig.len(),
                i == keep(orig.take(k), p).len(),
                self@.messages == keep(orig.take(k), p) + orig.skip(k),
                self@.folders == old(self)@.folders,
            decreases orig.len() - k,
        {
            let row = &self.messages[i];
            assert(row@ == self@.messages[i as int]);
            assert(row@ == orig[k]);
            let doomed = row.mailbox_hash == mailbox_hash && row.pending_op.is_none() && str_eq(
                row.account_id.as_str(),
                account,
            );
            proof {
                assert(orig.take(k + 1).drop_last() =~= orig.take(k));
                assert(orig.take(k + 1).last() == orig[k]);
                crate::seqs::lemma_shift_kept(keep(orig.take(k), p), orig, k);
                assert(doomed == !p(orig[k]));
            }
            if doomed {
                let _ = self.messages.remove(i);
                assert(self@.messages =~= keep(orig.take(k + 1), p) + orig.skip(k + 1));
            } else {
                assert(self@.messages =~= keep(orig.take(k + 1), p) + orig.skip(k + 1));
                i = i + 1;
            }
            proof {
                k = k + 1;
            }
        }
        proof {
            assert(k == orig.len());
            assert(orig.take(k) =~= orig);
            assert(self@.messages =~= keep(orig, p));
            lemma_keep_valid(orig, p);
        }
    }

    /// Merges one fetched message into the rows.
    fn merge_message(&mut self, account: &str, mailbox_hash: u64, m: &MessageSummary)
        requires
            old(self).wf(),
        ensures
            final(self).wf(),
            final(self)@.folders == old(self)@.folders,
            final(self)@.messages == resync_one(old(self)@.messages, account@, mailbox_hash, m@),
    {
        proof {
            lemma_resync_one_valid(self@.messages, account@, mailbox_hash, m@);
        }
        let server_flags = flags_to_u8(m.is_read, m.is_starred);
        match self.find_row(m.envelope_hash) {
            Some(i) => {
                let row = &self.messages[i];
                assert(row@ == self@.messages[i as int]);
                let pending_here = row.mailbox_hash == mailbox_hash && row.pending_op.is_some()
                    && str_eq(row.account_id.as_str(), account);
                if pending_here {
                    self.messages[i].flags_server = server_flags;
                    self.messages[i].subject = m.subject.clone();
                    self.messages[i].sender = m.from.clone();
                    self.messages[i].date = m.date.clone();
                    self.messages[i].timestamp = m.timestamp;
                    self.messages[i].has_attachments = m.has_attachments;
                    self.messages[i].thread_id = m.thread_id;
                    self.messages[i].message_id = m.message_id.clone();
                    self.messages[i].in_reply_to = opt_clone(&m.in_reply_to);
                    self.messages[i].thread_depth = m.thread_depth;
                    assert(self@.messages =~= resync_one(
                        old(self)@.messages,
                        account@,
                        mailbox_hash,
                        m@,
                    ));
                }
            },
            None => {
                let row = MessageRow {
                    account_id: String::from_str(account),
                    mailbox_hash,
                    envelope_hash: m.envelope_hash,
                    subject: m.subject.clone(),
                    sender: m.from.clone(),
                    date: m.date.clone(),
                    timestamp: m.timestamp,
                    has_attachments: m.has_attachments,
                    thread_id: m.thread_id,
                    message_id: m.message_id.clone(),
                    in_reply_to: opt_clone(&m.in_reply_to),
                    thread_depth: m.thread_depth,
                    flags_server: server_flags,
                    flags_local: server_flags,
                    pending_op: None,
                    body_plain: None,
                    body_markdown: None,
                    attachments: Vec::new(),
                };
                assert(row@ =~= fresh_row(account@, mailbox_hash, m@)) by {
                    assert(row@.attachments =~= Seq::empty());
                }
                self.messages.push(row);
                assert(self@.messages =~= resync_one(
                    old(self)@.messages,
                    account@,
                    mailbox_hash,
                    m@,
                ));
            },
        }
    }

    /// Takes over a full fetch of one mailbox. Rows of the mailbox without a pending
    /// operation are replaced by what was fetched and lose their cached bodies and
    /// attachments. Rows with a pending operation stay, also where the fetch no longer
    /// lists them; what the server reports of them is taken over, while their local
    /// flags and their pending operation are not touched.
    pub fn save_messages(&mut self, account: &str, mailbox_hash: u64, messages: Vec<MessageSummary>)
        requires
            old(self).wf(),
        ensures
            final(self).wf(),
            final(self)@.folders == old(self)@.folders,
            final(self)@.messages == spec_save_messages(
                old(self)@.messages,
                account@,
                mailbox_hash,
                view_all(messages@),
            ),
    {
        self.purge_mailbox(account, mailbox_hash);
        let ghost base = self@.messages;
        let ghost msgs = view_all(messages@);
        let mut i: usize = 0;
        while i < messages.len()
            invariant
                i <= messages.len(),
                msgs == view_all(messages@),
                self.wf(),
                self@.folders == old(self)@.folders,
                self@.messages == resync_all(base, account@, mailbox_hash, msgs.take(i as int)),
            decreases messages.len() - i,
        {
            proof {
                assert(msgs.take(i + 1).drop_last() =~= msgs.take(i as int));
                assert(msgs.take(i + 1).last() == messages@[i as int]@);
            }
            self.merge_message(account, mailbox_hash, &messages[i]);
            i = i + 1;
        }
        assert(msgs.take(i as int) =~= msgs);
    }

    /// Removes everything that is cached for an account.
    pub fn remove_account(&mut self, account: &str)
        requires
            old(self).wf(),
        ensures
            final(self).wf(),
            final(self)@.folders == keep(old(self)@.folders, folder_not_of(account@)),
            final(self)@.messages == keep(old(self)@.messages, not_of_account(account@)),
    {
        let ghost orig = self@.messages;
        let ghost p = not_of_account(account@);
        let mut i: usize = 0;
        let ghost mut k: int = 0;
        proof {
            assert(orig.take(0) =~= Seq::<MessageRowView>::empty());
            assert(keep(orig.take(0), p) + orig.skip(0) =~= orig);
        }
        while i < self.messages.len()
            invariant
                p == not_of_account(account@),
                0 <= k <= orig.len(),
                i == keep(orig.take(k), p).len(),
                self@.messages == keep(orig.take(k), p) + orig.skip(k),
                self@.folders == old(self)@.folders,
            decreases orig.len() - k,
        {
            let row = &self.messages[i];
            assert(row@ == self@.messages[i as int]);
            assert(row@ == orig[k]);
            let doomed = str_eq(row.account_id.as_str(), account);
            proof {
                assert(orig.take(k + 1).drop_last() =~= orig.take(k));
                assert(orig.take(k + 1).last() == orig[k]);
                crate::seqs::lemma_shift_kept(keep(orig.take(k), p), orig, k);
            }
            if doomed {
                let _ = self.messages.remove(i);
                assert(self@.messages =~= keep(orig.take(k + 1), p) + orig.skip(k + 1));
            } else {
                assert(self@.messages =~= keep(orig.take(k + 1), p) + orig.skip(k + 1));
                i = i + 1;
            }
            proof {
                k = k + 1;
            }
        }
        let ghost forig = self@.folders;
        let ghost q = folder_not_of(account@);
        let mut j: usize = 0;
        let ghost mut n: int = 0;
        proof {
            assert(orig.take(k) =~= orig);
            assert(self@.messages =~= keep(orig, p));
            lemma_keep_valid(orig, p);
            assert(forig.take(0) =~= Seq::<FolderRowView>::empty());
            assert(keep(forig.take(0), q) + forig.skip(0) =~= forig);
        }
        while j < self.folders.len()
            invariant
                q == folder_not_of(account@),
                0 <= n <= forig.len(),
                j == keep(forig.take(n), q).len(),
                self@.folders == keep(forig.take(n), q) + forig.skip(n),
                self@.messages == keep(orig, p),
            decreases forig.len() - n,
        {
            let row = &self.folders[j];
            assert(row@ == self@.folders[j as int]);
            assert(row@ == forig[n]);
            let doomed = str_eq(row.account_id.as_str(), account);
            proof {
                assert(forig.take(n + 1).drop_last() =~= forig.take(n));
                assert(forig.take(n + 1).last() == forig[n]);
                crate::seqs::lemma_shift_kept(keep(forig.take(n), q), forig, n);
            }
            if doomed {
                let _ = self.folders.remove(j);
                assert(self@.folders =~= keep(forig.take(n + 1), q) + forig.skip(n + 1));
            } else {
                assert(self@.folders =~= keep(forig.take(n + 1), q) + forig.skip(n + 1));
                j = j + 1;
            }
            proof {
                n = n + 1;
            }
        }
        proof {
            assert(forig.take(n) =~= forig);
            assert(self@.folders =~= keep(forig, q));
            lemma_keep_folders_distinct(forig, q);
        }
    }
}

} // verus!
