use crate::actions::{
    account_of_message, dispatch_move, remove_optimistic, start_move, step_archive,
    step_drag_to_folder, step_flag_done, step_move_done, step_move_to_named, step_toggle,
    step_trash, with_flags_restored,
};
use crate::effects::{Effect, FlagKind, PendingOp};
use crate::flags::{flags_from_u8, flags_to_u8};
use crate::model::{moves_hash, moves_other, AppModel, AppModelView, PendingMove, PendingMoveView};
use crate::models::{AttachmentDataView, MessageSummary};
use crate::seqs::{first_match, is_first_match, keep, lemma_first_match, lemma_shift_kept};
use crate::text::{text_and_number, text_and_text};
use vstd::prelude::*;
use vstd::string::*;

verus! {

impl AppModel {
    /// Removes the pending moves of a message from the table and hands out the first.
    pub fn take_pending(&mut self, envelope_hash: u64) -> (r: Option<PendingMove>)
        ensures
            final(self)@ == (AppModelView {
                pending_move_restore: keep(
                    old(self)@.pending_move_restore,
                    moves_other(envelope_hash),
                ),
                ..old(self)@
            }),
            match first_match(old(self)@.pending_move_restore, moves_hash(envelope_hash)) {
                Some(k) => r is Some && r->0@ == old(self)@.pending_move_restore[k],
                None => r is None,
            },
    {
        let ghost orig = self@.pending_move_restore;
        let ghost p = moves_hash(envelope_hash);
        let ghost q = moves_other(envelope_hash);
        let mut found: Option<PendingMove> = None;
        let ghost mut fi: Option<int> = None;
        let mut i: usize = 0;
        let ghost mut k: int = 0;
        proof {
            assert(orig.take(0) =~= Seq::<PendingMoveView>::empty());
            assert(keep(orig.take(0), q) + orig.skip(0) =~= orig);
        }
        while i < self.pending_move_restore.len()
            invariant
                p == moves_hash(envelope_hash),
                q == moves_other(envelope_hash),
                0 <= k <= orig.len(),
                i == keep(orig.take(k), q).len(),
                self@.pending_move_restore == keep(orig.take(k), q) + orig.skip(k),
                self@ == (AppModelView {
                    pending_move_restore: self@.pending_move_restore,
                    ..old(self)@
                }),
                is_first_match(orig.take(k), p, fi),
                match fi {
                    Some(j) => found is Some && 0 <= j < k && found->0@ == orig[j],
                    None => found is None,
                },
            decreases orig.len() - k,
        {
            assert(self.pending_move_restore@[i as int]@ == self@.pending_move_restore[i as int]);
            assert(self@.pending_move_restore[i as int] == orig[k]);
            proof {
                assert(orig.take(k + 1).drop_last() =~= orig.take(k));
                assert(orig.take(k + 1).last() == orig[k]);
                lemma_shift_kept(keep(orig.take(k), q), orig, k);
            }
            if self.pending_move_restore[i].envelope_hash == envelope_hash {
                let e = self.pending_move_restore.remove(i);
                assert(self@.pending_move_restore =~= keep(orig.take(k + 1), q) + orig.skip(k + 1));
                if found.is_none() {
                    found = Some(e);
                    proof {
                        fi = Some(k);
                    }
                }
            } else {
                assert(self@.pending_move_restore =~= keep(orig.take(k + 1), q) + orig.skip(k + 1));
                i = i + 1;
            }
            proof {
                let t = orig.take(k + 1);
                match fi {
                    Some(j) => {
                        assert(t[j] == orig[j]);
                        assert forall|x: int| 0 <= x < j implies !p(#[trigger] t[x]) by {
                            assert(t[x] == orig.take(k)[x]);
                        }
                    },
                    None => {
                        assert forall|x: int| 0 <= x < t.len() implies !p(#[trigger] t[x]) by {
                            if x < k {
                                assert(t[x] == orig.take(k)[x]);
                            }
                        }
                    },
                }
                k = k + 1;
            }
        }
        proof {
            assert(orig.take(k) =~= orig);
            assert(self@.pending_move_restore =~= keep(orig, q));
            lemma_first_match(orig, p, fi);
        }
        found
    }

    /// Takes the message at `index` out of the list ahead of its move and hands it out.
    /// Where the list has no message at `index`, nothing changes and nothing is handed
    /// out.
    pub fn remove_message_optimistic(&mut self, index: usize) -> (removed: Option<MessageSummary>)
        ensures
            final(self)@ == remove_optimistic(old(self)@, index),
            match removed {
                Some(msg) => index < old(self)@.messages.len() && msg@ == old(
                    self,
                )@.messages[index as int],
                None => index >= old(self)@.messages.len(),
            },
    {
        assert(self@.messages.len() == self.messages.len());
        if index >= self.messages.len() {
            return None;
        }
        let removed = self.messages.remove(index);
        assert(self@.messages =~= old(self)@.messages.remove(index as int));
        match self.selected_message {
            Some(sel) => {
                if sel == index {
                    self.selected_message = None;
                    self.preview_body = String::new();
                    self.preview_markdown = String::new();
                    self.preview_attachments = Vec::new();
                    assert(self@.preview_attachments =~= Seq::<AttachmentDataView>::empty());
                } else if sel > index {
                    self.selected_message = Some(sel - 1);
                }
            },
            None => {},
        }
        self.recompute_visible();
        Some(removed)
    }

    /// Sends out the requests that start a move.
    fn send_move(&mut self, envelope_hash: u64, source: u64, dest: u64) -> (effects: Vec<Effect>)
        ensures
            final(self)@ == dispatch_move(old(self)@, envelope_hash, source, dest).model,
            effects@ == dispatch_move(old(self)@, envelope_hash, source, dest).effects,
    {
        let mut effects: Vec<Effect> = Vec::new();
        let account = self.account_for_mailbox(source);
        if self.has_cache {
            if account.is_none() {
                self.status_message = text_and_number(
                    "Cannot queue move cache update: no account for source mailbox ",
                    source,
                );
                return effects;
            }
            effects.push(
                Effect::CacheUpdateFlags {
                    envelope_hash,
                    flags: flags_to_u8(true, false),
                    op: PendingOp::Move(dest),
                },
            );
        }
        match account {
            Some(a) => {
                assert(self.accounts@[a as int]@ == self@.accounts[a as int]);
                if self.accounts[a].has_session {
                    effects.push(
                        Effect::MoveMessage {
                            account: a,
                            envelope_hash,
                            source_mailbox: source,
                            dest_mailbox: dest,
                        },
                    );
                }
            },
            None => {},
        }
        assert(effects@ =~= dispatch_move(old(self)@, envelope_hash, source, dest).effects);
        effects
    }

    /// Starts the move of the message at `index`.
    fn begin_move(&mut self, index: usize, source: u64, dest: u64) -> (effects: Vec<Effect>)
        requires
            index < old(self).messages.len(),
        ensures
            final(self)@ == start_move(old(self)@, index, source, dest).model,
            effects@ == start_move(old(self)@, index, source, dest).effects,
    {
        assert(self@.messages.len() == self.messages.len());
        let removed = match self.remove_message_optimistic(index) {
            Some(removed) => removed,
            None => {
                return Vec::new();
            },
        };
        let envelope_hash = removed.envelope_hash;
        let _ = self.take_pending(envelope_hash);
        let ghost before = self@.pending_move_restore;
        let entry = PendingMove { envelope_hash, message: removed, position: index };
        self.pending_move_restore.push(entry);
        assert(self@.pending_move_restore =~= before.push(
            PendingMoveView {
                envelope_hash: envelope_hash,
                message: old(self)@.messages[index as int],
                position: index,
            },
        ));
        self.send_move(envelope_hash, source, dest)
    }

    /// Sets one flag of the message at `index` in the list.
    fn set_flag(&mut self, flag: FlagKind, index: usize, value: bool)
        requires
            index < old(self).messages.len(),
        ensures
            final(self)@ == (AppModelView {
                messages: old(self)@.messages.update(
                    index as int,
                    crate::actions::with_flag(old(self)@.messages[index as int], flag, value),
                ),
                ..old(self)@
            }),
    {
        assert(self.messages@[index as int]@ == self@.messages[index as int]);
        match flag {
            FlagKind::Seen => {
                self.messages[index].is_read = value;
            },
            FlagKind::Flagged => {
                self.messages[index].is_starred = value;
            },
        }
        assert(self@.messages =~= old(self)@.messages.update(
            index as int,
            crate::actions::with_flag(old(self)@.messages[index as int], flag, value),
        ));
    }

    /// The requests that follow a toggle.
    fn toggle_requests(
        &self,
        account: Option<usize>,
        envelope_hash: u64,
        mailbox_hash: u64,
        flag: FlagKind,
        set: bool,
        prev_flags: u8,
        new_flags: u8,
    ) -> (effects: Vec<Effect>)
        requires
            account matches Some(a) ==> a < self.accounts.len(),
        ensures
            effects@ == (if self.has_cache {
                seq![
                    Effect::CacheUpdateFlags {
                        envelope_hash: envelope_hash,
                        flags: new_flags,
                        op: crate::effects::spec_toggle_op(flag, set),
                    },
                ]
            } else {
                Seq::empty()
            }) + (match account {
                Some(a) => if self@.accounts[a as int].has_session {
                    seq![
                        Effect::SetFlags {
                            account: a,
                            envelope_hash: envelope_hash,
                            mailbox_hash: mailbox_hash,
                            flag: flag,
                            set: set,
                            prev_flags: prev_flags,
                            new_flags: new_flags,
                        },
                    ]
                } else {
                    Seq::empty()
                },
                None => Seq::empty(),
            }),
    {
        let mut effects: Vec<Effect> = Vec::new();
        if self.has_cache {
            effects.push(
                Effect::CacheUpdateFlags {
                    envelope_hash,
                    flags: new_flags,
                    op: PendingOp::for_toggle(flag, set),
                },
            );
        }
        let ghost first = effects@;
        match account {
            Some(a) => {
                assert(self.accounts@[a as int]@ == self@.accounts[a as int]);
                if self.accounts[a].has_session {
                    effects.push(
                        Effect::SetFlags {
                            account: a,
                            envelope_hash,
                            mailbox_hash,
                            flag,
                            set,
                            prev_flags,
                            new_flags,
                        },
                    );
                    assert(effects@ =~= first + seq![
                        Effect::SetFlags {
                            account: a,
                            envelope_hash: envelope_hash,
                            mailbox_hash: mailbox_hash,
                            flag: flag,
                            set: set,
                            prev_flags: prev_flags,
                            new_flags: new_flags,
                        },
                    ]);
                } else {
                    assert(effects@ =~= first + Seq::<Effect>::empty());
                }
            },
            None => {
                assert(effects@ =~= first + Seq::<Effect>::empty());
            },
        }
        effects
    }

    /// Toggles one flag of the message at `index`.
    fn toggle(&mut self, flag: FlagKind, index: usize) -> (effects: Vec<Effect>)
        ensures
            final(self)@ == step_toggle(old(self)@, flag, index).model,
            effects@ == step_toggle(old(self)@, flag, index).effects,
    {
        if index >= self.messages.len() {
            return Vec::new();
        }
        assert(self.messages@[index as int]@ == self@.messages[index as int]);
        let prev_flags = flags_to_u8(self.messages[index].is_read, self.messages[index].is_starred);
        let envelope_hash = self.messages[index].envelope_hash;
        let mailbox_hash = self.messages[index].mailbox_hash;
        let set = match flag {
            FlagKind::Seen => !self.messages[index].is_read,
            FlagKind::Flagged => !self.messages[index].is_starred,
        };
        self.set_flag(flag, index, set);
        assert(self@.messages.len() == self.messages.len());
        assert(self.messages@[index as int]@ == self@.messages[index as int]);
        let new_flags = flags_to_u8(self.messages[index].is_read, self.messages[index].is_starred);
        let account = self.account_for_mailbox(mailbox_hash);
        if self.has_cache && account.is_none() {
            self.status_message = text_and_number(
                "Cannot update cache flags: no account for mailbox ",
                mailbox_hash,
            );
            return Vec::new();
        }
        self.toggle_requests(account, envelope_hash, mailbox_hash, flag, set, prev_flags, new_flags)
    }

    /// The user toggles "read" on the message at `index`.
    pub fn toggle_read(&mut self, index: usize) -> (effects: Vec<Effect>)
        ensures
            final(self)@ == step_toggle(old(self)@, FlagKind::Seen, index).model,
            effects@ == step_toggle(old(self)@, FlagKind::Seen, index).effects,
    {
        self.toggle(FlagKind::Seen, index)
    }

    /// The user toggles the star of the message at `index`.
    pub fn toggle_star(&mut self, index: usize) -> (effects: Vec<Effect>)
        ensures
            final(self)@ == step_toggle(old(self)@, FlagKind::Flagged, index).model,
            effects@ == step_toggle(old(self)@, FlagKind::Flagged, index).effects,
    {
        self.toggle(FlagKind::Flagged, index)
    }

    /// Moves the message at `index` to the folder of its account with one of two paths.
    fn move_to_named(&mut self, index: usize, first: &str, second: &str, missing: &str) -> (effects:
        Vec<Effect>)
        ensures
            final(self)@ == step_move_to_named(
                old(self)@,
                index,
                first@,
                second@,
                missing@,
            ).model,
            effects@ == step_move_to_named(old(self)@, index, first@, second@, missing@).effects,
    {
        if index >= self.messages.len() {
            return Vec::new();
        }
        assert(self.messages@[index as int]@ == self@.messages[index as int]);
        let mailbox_hash = self.messages[index].mailbox_hash;
        let dest = match self.account_for_mailbox(mailbox_hash) {
            Some(a) => {
                assert(self.accounts@[a as int]@ == self@.accounts[a as int]);
                match self.accounts[a].folder_hash(first) {
                    Some(h) => Some(h),
                    None => self.accounts[a].folder_hash(second),
                }
            },
            None => None,
        };
        match dest {
            Some(d) => self.begin_move(index, mailbox_hash, d),
            None => {
                self.status_message = String::from_str(missing);
                Vec::new()
            },
        }
    }

    /// The user moves the message at `index` to the trash.
    pub fn trash(&mut self, index: usize) -> (effects: Vec<Effect>)
        ensures
            final(self)@ == step_trash(old(self)@, index).model,
            effects@ == step_trash(old(self)@, index).effects,
    {
        self.move_to_named(index, "Trash", "INBOX.Trash", "Trash folder not found")
    }

    /// The user moves the message at `index` to the archive.
    pub fn archive(&mut self, index: usize) -> (effects: Vec<Effect>)
        ensures
            final(self)@ == step_archive(old(self)@, index).model,
            effects@ == step_archive(old(self)@, index).effects,
    {
        self.move_to_named(index, "Archive", "INBOX.Archive", "Archive folder not found")
    }

    /// The user drops a message on a folder.
    pub fn drag_message_to_folder(&mut self, envelope_hash: u64, source_mailbox: u64, dest_mailbox: u64) -> (effects:
        Vec<Effect>)
        ensures
            final(self)@ == step_drag_to_folder(
                old(self)@,
                envelope_hash,
                source_mailbox,
                dest_mailbox,
            ).model,
            effects@ == step_drag_to_folder(
                old(self)@,
                envelope_hash,
                source_mailbox,
                dest_mailbox,
            ).effects,
    {
        self.folder_drag_target = None;
        if source_mailbox == dest_mailbox {
            return Vec::new();
        }
        let src = self.account_for_mailbox(source_mailbox);
        let dst = self.account_for_mailbox(dest_mailbox);
        let same = match (src, dst) {
            (Some(a), Some(b)) => a == b,
            (None, None) => true,
            _ => false,
        };
        if !same {
            self.status_message = String::from_str("Cannot move messages between accounts");
            return Vec::new();
        }
        match self.message_position(envelope_hash) {
            Some(i) => self.begin_move(i, source_mailbox, dest_mailbox),
            None => Vec::new(),
        }
    }

    /// The place of the account that owns the mailbox of a listed message.
    fn account_for_message(&self, envelope_hash: u64) -> (r: Option<usize>)
        ensures
            match r {
                Some(a) => account_of_message(self@, envelope_hash) == Some(a as int),
                None => account_of_message(self@, envelope_hash) is None,
            },
    {
        match self.message_position(envelope_hash) {
            Some(i) => {
                assert(self.messages@[i as int]@ == self@.messages[i as int]);
                self.account_for_mailbox(self.messages[i].mailbox_hash)
            },
            None => None,
        }
    }

    /// The server answered a flag request.
    pub fn flag_op_complete(
        &mut self,
        envelope_hash: u64,
        op: PendingOp,
        prev_flags: u8,
        result: Result<u8, String>,
    ) -> (effects:
        Vec<Effect>)
        ensures
            final(self)@ == step_flag_done(
                old(self)@,
                envelope_hash,
                op,
                prev_flags,
                crate::text::result_text_view(result),
            ).model,
            effects@ == step_flag_done(
                old(self)@,
                envelope_hash,
                op,
                prev_flags,
                crate::text::result_text_view(result),
            ).effects,
    {
        let mut effects: Vec<Effect> = Vec::new();
        let account = self.account_for_message(envelope_hash);
        match result {
            Ok(flags) => {
                if self.has_cache {
                    if account.is_none() {
                        self.status_message = text_and_number(
                            "Cannot clear cache pending op: no account for message ",
                            envelope_hash,
                        );
                        return effects;
                    }
                    effects.push(Effect::CacheConfirmPendingOp { envelope_hash, op, flags });
                }
            },
            Err(e) => {
                self.status_message = text_and_text("Flag update failed: ", e.as_str());
                match self.message_position(envelope_hash) {
                    Some(i) => {
                        let (is_read, is_starred) = flags_from_u8(prev_flags);
                        self.messages[i].is_read = is_read;
                        self.messages[i].is_starred = is_starred;
                        assert(self@.messages =~= with_flags_restored(
                            old(self)@.messages,
                            envelope_hash,
                            prev_flags,
                        ));
                    },
                    None => {},
                }
                if self.has_cache {
                    if account.is_none() {
                        self.status_message = text_and_number(
                            "Cannot revert cache pending op: no account for message ",
                            envelope_hash,
                        );
                        return effects;
                    }
                    effects.push(Effect::CacheRevertPendingOp { envelope_hash });
                }
            },
        }
        assert(effects@ =~= step_flag_done(
            old(self)@,
            envelope_hash,
            op,
            prev_flags,
            crate::text::result_text_view(result),
        ).effects);
        effects
    }

    /// The server answered a move request.
    pub fn move_op_complete(&mut self, envelope_hash: u64, result: Result<(), String>) -> (effects:
        Vec<Effect>)
        ensures
            final(self)@ == step_move_done(
                old(self)@,
                envelope_hash,
                crate::text::result_text_view(result),
            ).model,
            effects@ == step_move_done(
                old(self)@,
                envelope_hash,
                crate::text::result_text_view(result),
            ).effects,
    {
        let mut effects: Vec<Effect> = Vec::new();
        let entry = self.take_pending(envelope_hash);
        match result {
            Ok(_) => {
                let account = match &entry {
                    Some(e) => self.account_for_mailbox(e.message.mailbox_hash),
                    None => None,
                };
                if account.is_none() {
                    self.status_message = text_and_number(
                        "Cannot remove moved message from cache: missing account for ",
                        envelope_hash,
                    );
                    return effects;
                }
                if self.has_cache {
                    effects.push(Effect::CacheRemoveMessage { envelope_hash });
                }
            },
            Err(e) => {
                match entry {
                    Some(kept) => {
                        let at = if kept.position <= self.messages.len() {
                            kept.position
                        } else {
                            self.messages.len()
                        };
                        let ghost before = self@.messages;
                        self.messages.insert(at, kept.message);
                        assert(self@.messages =~= before.insert(at as int, kept.message@));
                        self.selected_message = Some(at);
                        self.recompute_visible();
                    },
                    None => {},
                }
                self.status_message = text_and_text("Move failed: ", e.as_str());
            },
        }
        assert(effects@ =~= step_move_done(
            old(self)@,
            envelope_hash,
            crate::text::result_text_view(result),
        ).effects);
        effects
    }
}

} // verus!
