use crate::effects::Effect;
use crate::model::{AccountStateView, AppModel, AppModelView};
use crate::models::{
    AttachmentDataView, ConnectionState, ConnectionStateView, Folder, MessageSummaryView,
};
use crate::paging::DEFAULT_PAGE_SIZE;
use crate::seqs::view_all;
use crate::sync::{
    first_page, folders_failed_at, folders_synced_at, mark_active_connected, reconnect_at,
    refresh_effects, set_account, step_force_reconnect, step_load_more, step_refresh,
    step_select_folder, step_sync_folders_complete, step_sync_messages_complete,
};
use crate::sync_exec::folders_result_view;
use crate::text::{label_number_text, number_and_text, result_text_view, text_and_text, three_texts};
use vstd::prelude::*;
use vstd::string::*;

verus! {

impl AppModel {
    /// Puts fresh folders in place of the old ones of the account at `idx`.
    fn install_folders(&mut self, idx: usize, folders: Vec<Folder>)
        requires
            idx < old(self).accounts.len(),
        ensures
            final(self).accounts.len() == old(self).accounts.len(),
            final(self)@ == (AppModelView {
                status_message: crate::sync::folders_text(
                    old(self)@.accounts[idx as int].config.label,
                    view_all(folders@).len(),
                    " folders"@,
                ),
                ..set_account(
                    old(self)@,
                    idx as int,
                    AccountStateView {
                        folders: view_all(folders@),
                        conn_state: ConnectionStateView::Connected,
                        ..old(self)@.accounts[idx as int]
                    },
                )
            }),
    {
        let n = folders.len();
        assert(view_all(folders@).len() == n);
        self.set_folders(idx, folders);
        self.set_conn_state(idx, ConnectionState::Connected);
        assert(self@.accounts =~= old(self)@.accounts.update(
            idx as int,
            AccountStateView {
                folders: view_all(folders@),
                conn_state: ConnectionStateView::Connected,
                ..old(self)@.accounts[idx as int]
            },
        ));
        assert(self.accounts@[idx as int]@ == self@.accounts[idx as int]);
        self.status_message = label_number_text(
            self.accounts[idx].config.label.as_str(),
            n,
            " folders",
        );
    }

    /// Selects the inbox of the account at `idx` where the account has no folder
    /// selected, and makes the account the active one where none is.
    fn adopt_inbox(&mut self, idx: usize)
        requires
            idx < old(self).accounts.len(),
        ensures
            final(self).accounts.len() == old(self).accounts.len(),
            ({
                let m = old(self)@;
                let inbox = crate::body::as_place(
                    crate::seqs::first_match(m.accounts[idx as int].folders, crate::model::is_inbox()),
                );
                let takes_inbox = inbox is Some && (m.active_account is None || (m.active_account
                    == Some(idx) && m.selected_folder is None));
                final(self)@ == (AppModelView {
                    active_account: if m.active_account is None {
                        Some(idx)
                    } else {
                        m.active_account
                    },
                    selected_folder: if takes_inbox {
                        inbox
                    } else {
                        m.selected_folder
                    },
                    ..m
                })
            }),
    {
        assert(self.accounts@[idx as int]@ == self@.accounts[idx as int]);
        let inbox = self.accounts[idx].inbox_position();
        let open_for_inbox = match self.active_account {
            Some(a) => a == idx && self.selected_folder.is_none(),
            None => true,
        };
        if open_for_inbox && inbox.is_some() {
            self.selected_folder = inbox;
        }
        if self.active_account.is_none() {
            self.active_account = Some(idx);
        }
    }

    /// The request for the messages of the selected folder, where the account at `idx`
    /// is the active one and has a session.
    fn fetch_selected(&self, idx: usize) -> (effects: Vec<Effect>)
        requires
            idx < self.accounts.len(),
        ensures
            ({
                let m = self@;
                let a = m.accounts[idx as int];
                let fetch = m.active_account == Some(idx) && m.selected_folder is Some
                    && m.selected_folder->0 < a.folders.len() && a.has_session;
                effects@ == if fetch {
                    seq![
                        Effect::FetchMessages {
                            account: idx,
                            mailbox_hash: a.folders[m.selected_folder->0 as int].mailbox_hash,
                        },
                    ]
                } else {
                    Seq::<Effect>::empty()
                }
            }),
    {
        let mut effects: Vec<Effect> = Vec::new();
        assert(self.accounts@[idx as int]@ == self@.accounts[idx as int]);
        let is_active = match self.active_account {
            Some(a) => a == idx,
            None => false,
        };
        if is_active && self.accounts[idx].has_session {
            match self.selected_folder {
                Some(fi) => {
                    if fi < self.accounts[idx].folders.len() {
                        assert(self.accounts@[idx as int].folders@[fi as int]@
                            == self@.accounts[idx as int].folders[fi as int]);
                        effects.push(
                            Effect::FetchMessages {
                                account: idx,
                                mailbox_hash: self.accounts[idx].folders[fi].mailbox_hash,
                            },
                        );
                    }
                },
                None => {},
            }
        }
        effects
    }

    /// Fresh folders of the account at `idx` arrived from the server.
    fn folders_synced(&mut self, idx: usize, folders: Vec<Folder>) -> (effects: Vec<Effect>)
        requires
            idx < old(self).accounts.len(),
        ensures
            final(self)@ == folders_synced_at(old(self)@, idx as int, view_all(folders@)).model,
            effects@ == folders_synced_at(old(self)@, idx as int, view_all(folders@)).effects,
    {
        self.install_folders(idx, folders);
        self.adopt_inbox(idx);
        self.fetch_selected(idx)
    }

    /// Fetching the folders of the account at `idx` failed.
    fn folders_failed(&mut self, idx: usize, error: String)
        requires
            idx < old(self).accounts.len(),
        ensures
            final(self)@ == folders_failed_at(old(self)@, idx as int, error@).model,
    {
        assert(self.accounts@[idx as int]@ == self@.accounts[idx as int]);
        let n = self.accounts[idx].folders.len();
        assert(n == self@.accounts[idx as int].folders.len());
        let status = if n == 0 {
            three_texts(
                self.accounts[idx].config.label.as_str(),
                ": Failed to load folders: ",
                error.as_str(),
            )
        } else {
            let mut s = label_number_text(
                self.accounts[idx].config.label.as_str(),
                n,
                " folders (sync failed: ",
            );
            s.append(error.as_str());
            s.append(")");
            s
        };
        self.status_message = status;
        assert(self@.accounts.len() == self.accounts.len());
        self.set_conn_state(idx, ConnectionState::Connected);
    }

    /// The folders of an account arrived from the server, or fetching them failed.
    pub fn sync_folders_complete(&mut self, account_id: &str, result: Result<Vec<Folder>, String>) -> (effects:
        Vec<Effect>)
        ensures
            final(self)@ == step_sync_folders_complete(
                old(self)@,
                account_id@,
                folders_result_view(result),
            ).model,
            effects@ == step_sync_folders_complete(
                old(self)@,
                account_id@,
                folders_result_view(result),
            ).effects,
    {
        let idx = match self.account_index(account_id) {
            Some(idx) => idx,
            None => {
                return Vec::new();
            },
        };
        match result {
            Ok(folders) => self.folders_synced(idx, folders),
            Err(e) => {
                self.folders_failed(idx, e);
                Vec::new()
            },
        }
    }

    /// Marks the active account as connected.
    fn active_connected(&mut self)
        ensures
            final(self)@ == mark_active_connected(old(self)@),
    {
        match self.active_account {
            Some(i) => {
                if i < self.accounts.len() {
                    self.set_conn_state(i, ConnectionState::Connected);
                }
            },
            None => {},
        }
    }

    /// Fetching the messages of the shown mailbox ended.
    pub fn sync_messages_complete(&mut self, result: Result<(), String>) -> (effects: Vec<Effect>)
        ensures
            final(self)@ == step_sync_messages_complete(old(self)@, result_text_view(result)).model,
            effects@ == step_sync_messages_complete(old(self)@, result_text_view(result)).effects,
    {
        let mailbox = self.shown_mailbox();
        let had_pending = self.pending_body.is_some();
        let n = self.messages.len();
        assert(n == self@.messages.len());
        self.active_connected();
        match result {
            Ok(_) => {
                let mut first: Vec<Effect> = Vec::new();
                match (self.has_cache, mailbox, self.active_account) {
                    (true, Some(mailbox_hash), Some(a)) => {
                        self.messages_offset = 0;
                        first.push(
                            Effect::CacheLoadMessages {
                                account: a,
                                mailbox_hash,
                                limit: DEFAULT_PAGE_SIZE,
                                offset: 0,
                            },
                        );
                        assert(first@ =~= seq![first_page(a as int, mailbox_hash)]);
                        self.flush_pending_body(first)
                    },
                    _ => {
                        if had_pending {
                            assert(first@ =~= Seq::<Effect>::empty());
                            self.flush_pending_body(first)
                        } else {
                            self.status_message = number_and_text(n, " messages (synced)");
                            first
                        }
                    },
                }
            },
            Err(e) => {
                self.status_message = text_and_text("Sync failed: ", e.as_str());
                Vec::new()
            },
        }
    }

    /// Empties the list and what belongs to it.
    fn clear_listing(&mut self)
        ensures
            final(self)@ == (AppModelView {
                messages: Seq::empty(),
                selected_message: None,
                preview_body: Seq::empty(),
                preview_markdown: Seq::empty(),
                preview_attachments: Seq::empty(),
                messages_offset: 0,
                has_more_messages: false,
                collapsed_threads: Seq::empty(),
                visible_indices: Seq::empty(),
                ..old(self)@
            }),
    {
        self.messages = Vec::new();
        self.selected_message = None;
        self.preview_body = String::new();
        self.preview_markdown = String::new();
        self.preview_attachments = Vec::new();
        self.messages_offset = 0;
        self.has_more_messages = false;
        self.collapsed_threads = Vec::new();
        self.visible_indices = Vec::new();
        assert(self@.messages =~= Seq::<MessageSummaryView>::empty());
        assert(self@.preview_attachments =~= Seq::<AttachmentDataView>::empty());
    }

    /// The user selects a folder.
    pub fn select_folder(&mut self, account: usize, folder: usize) -> (effects: Vec<Effect>)
        ensures
            final(self)@ == step_select_folder(old(self)@, account, folder).model,
            effects@ == step_select_folder(old(self)@, account, folder).effects,
    {
        let mut effects: Vec<Effect> = Vec::new();
        self.clear_listing();
        self.active_account = Some(account);
        self.selected_folder = Some(folder);
        if account >= self.accounts.len() {
            return effects;
        }
        assert(self.accounts@[account as int]@ == self@.accounts[account as int]);
        if folder >= self.accounts[account].folders.len() {
            return effects;
        }
        assert(self.accounts@[account as int].folders@[folder as int]@
            == self@.accounts[account as int].folders[folder as int]);
        let mailbox_hash = self.accounts[account].folders[folder].mailbox_hash;
        if self.has_cache {
            effects.push(
                Effect::CacheLoadMessages {
                    account,
                    mailbox_hash,
                    limit: DEFAULT_PAGE_SIZE,
                    offset: 0,
                },
            );
        }
        let ghost cache_part = effects@;
        if self.accounts[account].has_session {
            self.status_message = three_texts(
                "Loading ",
                self.accounts[account].folders[folder].name.as_str(),
                "...",
            );
            self.set_conn_state(account, ConnectionState::Syncing);
            effects.push(Effect::FetchMessages { account, mailbox_hash });
            assert(effects@ =~= cache_part + seq![Effect::FetchMessages { account, mailbox_hash }]);
        }
        assert(effects@ =~= step_select_folder(old(self)@, account, folder).effects);
        effects
    }

    /// The user asks for more messages.
    pub fn load_more_messages(&mut self) -> (effects: Vec<Effect>)
        ensures
            final(self)@ == step_load_more(old(self)@).model,
            effects@ == step_load_more(old(self)@).effects,
    {
        let mut effects: Vec<Effect> = Vec::new();
        let offset = if self.messages_offset <= u32::MAX - DEFAULT_PAGE_SIZE {
            self.messages_offset + DEFAULT_PAGE_SIZE
        } else {
            u32::MAX
        };
        self.messages_offset = offset;
        match (self.has_cache, self.shown_mailbox(), self.active_account) {
            (true, Some(mailbox_hash), Some(a)) => {
                effects.push(
                    Effect::CacheLoadMessages {
                        account: a,
                        mailbox_hash,
                        limit: DEFAULT_PAGE_SIZE,
                        offset,
                    },
                );
            },
            _ => {},
        }
        assert(effects@ =~= step_load_more(old(self)@).effects);
        effects
    }

    /// A refresh of all connected accounts.
    pub fn refresh(&mut self) -> (effects: Vec<Effect>)
        ensures
            final(self)@ == step_refresh(old(self)@).model,
            effects@ == step_refresh(old(self)@).effects,
    {
        let ghost accounts = self@.accounts;
        let mut effects: Vec<Effect> = Vec::new();
        let mut i: usize = 0;
        proof {
            assert(accounts.take(0) =~= Seq::<AccountStateView>::empty());
        }
        while i < self.accounts.len()
            invariant
                i <= self.accounts.len(),
                *self == *old(self),
                accounts == self@.accounts,
                effects@ == refresh_effects(accounts.take(i as int)),
            decreases self.accounts.len() - i,
        {
            assert(self.accounts@[i as int]@ == accounts[i as int]);
            proof {
                assert(accounts.take(i + 1).drop_last() =~= accounts.take(i as int));
                assert(accounts.take(i + 1).last() == accounts[i as int]);
            }
            if self.accounts[i].has_session {
                effects.push(Effect::FetchFolders { account: i });
            }
            i = i + 1;
        }
        assert(accounts.take(i as int) =~= accounts);
        if effects.len() > 0 {
            self.status_message = String::from_str("Refreshing...");
        }
        effects
    }

    /// The account at `idx` is connected anew.
    fn reconnect(&mut self, idx: usize) -> (effects: Vec<Effect>)
        requires
            idx < old(self).accounts.len(),
        ensures
            final(self)@ == reconnect_at(old(self)@, idx as int).model,
            effects@ == reconnect_at(old(self)@, idx as int).effects,
    {
        let mut effects: Vec<Effect> = Vec::new();
        assert(self.accounts@[idx as int]@ == self@.accounts[idx as int]);
        if self.accounts[idx].conn_state.is_busy() {
            return effects;
        }
        self.status_message = text_and_text(
            self.accounts[idx].config.label.as_str(),
            ": Reconnecting...",
        );
        assert(self@.accounts.len() == self.accounts.len());
        self.set_session(idx, false);
        self.set_conn_state(idx, ConnectionState::Connecting);
        assert(self@.accounts =~= old(self)@.accounts.update(
            idx as int,
            AccountStateView {
                has_session: false,
                conn_state: ConnectionStateView::Connecting,
                ..old(self)@.accounts[idx as int]
            },
        ));
        effects.push(Effect::Connect { account: idx });
        assert(effects@ =~= seq![Effect::Connect { account: idx }]);
        effects
    }

    /// A lost connection is tried again.
    pub fn force_reconnect(&mut self, account_id: &str) -> (effects: Vec<Effect>)
        ensures
            final(self)@ == step_force_reconnect(old(self)@, account_id@).model,
            effects@ == step_force_reconnect(old(self)@, account_id@).effects,
    {
        match self.account_index(account_id) {
            Some(idx) => self.reconnect(idx),
            None => Vec::new(),
        }
    }
}

} // verus!
