use crate::effects::Effect;
use crate::model::{AccountStateView, AppModel};
use crate::models::{
    ConnectionState, ConnectionStateView, Folder, FolderView, MessageSummary, MessageSummaryView,
};
use crate::paging::DEFAULT_PAGE_SIZE;
use crate::seqs::view_all;
use crate::sync::{
    active_mailbox, first_page, connected_at, connection_failed_at, set_account,
    step_account_connected, step_cached_folders_loaded, step_cached_messages_loaded,
    then_pending_body,
};
use crate::text::{label_number_text, number_and_text, result_text_view, text_and_text, three_texts};
use vstd::prelude::*;
use vstd::string::*;

verus! {

/// The view of a result that carries folders.
pub open spec fn folders_result_view(r: Result<Vec<Folder>, String>) -> Result<Seq<FolderView>, Seq<char>> {
    match r {
        Ok(v) => Ok(view_all(v@)),
        Err(e) => Err(e@),
    }
}

/// The view of a result that carries messages.
pub open spec fn messages_result_view(r: Result<Vec<MessageSummary>, String>) -> Result<
    Seq<MessageSummaryView>,
    Seq<char>,
> {
    match r {
        Ok(v) => Ok(view_all(v@)),
        Err(e) => Err(e@),
    }
}

impl AppModel {
    /// Replaces the folders of the account at `idx`.
    pub(crate) fn set_folders(&mut self, idx: usize, folders: Vec<Folder>)
        requires
            idx < old(self).accounts.len(),
        ensures
            final(self).accounts.len() == old(self).accounts.len(),
            final(self)@ == set_account(
                old(self)@,
                idx as int,
                AccountStateView { folders: view_all(folders@), ..old(self)@.accounts[idx as int] },
            ),
    {
        assert(self.accounts@[idx as int]@ == self@.accounts[idx as int]);
        self.accounts[idx].folders = folders;
        assert(self@.accounts =~= old(self)@.accounts.update(
            idx as int,
            AccountStateView { folders: view_all(folders@), ..old(self)@.accounts[idx as int] },
        ));
    }

    /// Sets the connection state of the account at `idx`.
    pub(crate) fn set_conn_state(&mut self, idx: usize, state: ConnectionState)
        requires
            idx < old(self).accounts.len(),
        ensures
            final(self).accounts.len() == old(self).accounts.len(),
            final(self)@ == set_account(
                old(self)@,
                idx as int,
                AccountStateView { conn_state: state@, ..old(self)@.accounts[idx as int] },
            ),
    {
        assert(self.accounts@[idx as int]@ == self@.accounts[idx as int]);
        self.accounts[idx].conn_state = state;
        assert(self@.accounts =~= old(self)@.accounts.update(
            idx as int,
            AccountStateView { conn_state: state@, ..old(self)@.accounts[idx as int] },
        ));
    }

    /// Records whether the account at `idx` has a session.
    pub(crate) fn set_session(&mut self, idx: usize, has_session: bool)
        requires
            idx < old(self).accounts.len(),
        ensures
            final(self).accounts.len() == old(self).accounts.len(),
            final(self)@ == set_account(
                old(self)@,
                idx as int,
                AccountStateView { has_session: has_session, ..old(self)@.accounts[idx as int] },
            ),
    {
        assert(self.accounts@[idx as int]@ == self@.accounts[idx as int]);
        self.accounts[idx].has_session = has_session;
        assert(self@.accounts =~= old(self)@.accounts.update(
            idx as int,
            AccountStateView { has_session: has_session, ..old(self)@.accounts[idx as int] },
        ));
    }

    /// The mailbox that is shown: the selected folder of the active account.
    pub fn shown_mailbox(&self) -> (r: Option<u64>)
        ensures
            r == active_mailbox(self@),
    {
        match (self.active_account, self.selected_folder) {
            (Some(a), Some(f)) => {
                if a < self.accounts.len() {
                    assert(self.accounts@[a as int]@ == self@.accounts[a as int]);
                    if f < self.accounts[a].folders.len() {
                        assert(self.accounts@[a as int].folders@[f as int]@
                            == self@.accounts[a as int].folders[f as int]);
                        Some(self.accounts[a].folders[f].mailbox_hash)
                    } else {
                        None
                    }
                } else {
                    None
                }
            },
            _ => None,
        }
    }

    /// The folders of an account arrived from the cache.
    pub fn cached_folders_loaded(&mut self, account_id: &str, result: Result<Vec<Folder>, String>) -> (effects:
        Vec<Effect>)
        ensures
            final(self)@ == step_cached_folders_loaded(
                old(self)@,
                account_id@,
                folders_result_view(result),
            ).model,
            effects@ == step_cached_folders_loaded(
                old(self)@,
                account_id@,
                folders_result_view(result),
            ).effects,
    {
        let mut effects: Vec<Effect> = Vec::new();
        let folders = match result {
            Ok(folders) => folders,
            Err(_) => {
                return effects;
            },
        };
        let idx = match self.account_index(account_id) {
            Some(idx) => idx,
            None => {
                return effects;
            },
        };
        let n = folders.len();
        if n == 0 {
            return effects;
        }
        assert(view_all(folders@).len() == n);
        self.set_folders(idx, folders);
        assert(self.accounts@[idx as int]@ == self@.accounts[idx as int]);
        let inbox = self.accounts[idx].inbox_position();
        match inbox {
            Some(fi) => {
                if self.active_account.is_none() {
                    self.active_account = Some(idx);
                    self.selected_folder = Some(fi);
                    if self.has_cache {
                        assert(self.accounts@[idx as int].folders@[fi as int]@
                            == self@.accounts[idx as int].folders[fi as int]);
                        let mailbox_hash = self.accounts[idx].folders[fi].mailbox_hash;
                        self.messages_offset = 0;
                        effects.push(
                            Effect::CacheLoadMessages {
                                account: idx,
                                mailbox_hash,
                                limit: DEFAULT_PAGE_SIZE,
                                offset: 0,
                            },
                        );
                        assert(effects@ =~= seq![first_page(idx as int, mailbox_hash)]);
                        return effects;
                    }
                }
            },
            None => {},
        }
        self.status_message = number_and_text(n, " folders (cached)");
        effects
    }

    /// A page of messages arrived from the cache.
    pub fn cached_messages_loaded(&mut self, result: Result<Vec<MessageSummary>, String>) -> (effects:
        Vec<Effect>)
        ensures
            final(self)@ == step_cached_messages_loaded(
                old(self)@,
                messages_result_view(result),
            ).model,
            effects@ == step_cached_messages_loaded(
                old(self)@,
                messages_result_view(result),
            ).effects,
    {
        let mut page = match result {
            Ok(page) => page,
            Err(_) => {
                return Vec::new();
            },
        };
        let ghost fresh = view_all(page@);
        assert(fresh.len() == page.len());
        self.has_more_messages = page.len() == DEFAULT_PAGE_SIZE as usize;
        if self.messages_offset == 0 {
            self.messages = page;
        } else {
            self.messages.append(&mut page);
            assert(self@.messages =~= old(self)@.messages + fresh);
        }
        self.recompute_visible();
        assert(self@.messages.len() == self.messages.len());
        if self.messages.len() > 0 {
            self.status_message = number_and_text(self.messages.len(), " messages");
        }
        Vec::new()
    }

    /// Takes up the body request that waited, if there is one, and puts what it asks for
    /// behind `first`.
    pub(crate) fn flush_pending_body(&mut self, first: Vec<Effect>) -> (effects: Vec<Effect>)
        ensures
            final(self)@ == then_pending_body(old(self)@, first@).model,
            effects@ == then_pending_body(old(self)@, first@).effects,
    {
        let mut effects = first;
        match self.pending_body {
            Some(index) => {
                self.pending_body = None;
                let mut more = self.view_body(index);
                effects.append(&mut more);
            },
            None => {},
        }
        effects
    }

    /// An attempt to connect the account at `idx` succeeded.
    fn connected(&mut self, idx: usize) -> (effects: Vec<Effect>)
        requires
            idx < old(self).accounts.len(),
        ensures
            final(self)@ == connected_at(old(self)@, idx as int).model,
            effects@ == connected_at(old(self)@, idx as int).effects,
    {
        self.set_session(idx, true);
        self.set_conn_state(idx, ConnectionState::Syncing);
        assert(self.accounts@[idx as int]@ == self@.accounts[idx as int]);
        let n = self.accounts[idx].folders.len();
        assert(n == old(self)@.accounts[idx as int].folders.len());
        if n == 0 {
            self.status_message = text_and_text(
                self.accounts[idx].config.label.as_str(),
                ": Connected. Loading folders...",
            );
        } else {
            self.status_message = label_number_text(
                self.accounts[idx].config.label.as_str(),
                n,
                " folders (syncing...)",
            );
        }
        let mut first: Vec<Effect> = Vec::new();
        first.push(Effect::FetchFolders { account: idx });
        assert(first@ =~= seq![Effect::FetchFolders { account: idx }]);
        assert(self@.accounts =~= old(self)@.accounts.update(
            idx as int,
            AccountStateView {
                has_session: true,
                conn_state: ConnectionStateView::Syncing,
                ..old(self)@.accounts[idx as int]
            },
        ));
        self.flush_pending_body(first)
    }

    /// An attempt to connect the account at `idx` failed.
    fn connection_failed(&mut self, idx: usize, error: String)
        requires
            idx < old(self).accounts.len(),
        ensures
            final(self)@ == connection_failed_at(old(self)@, idx as int, error@).model,
    {
        assert(self.accounts@[idx as int]@ == self@.accounts[idx as int]);
        let n = self.accounts[idx].folders.len();
        assert(n == self@.accounts[idx as int].folders.len());
        let status = if n == 0 {
            three_texts(self.accounts[idx].config.label.as_str(), ": Connection failed: ", error.as_str())
        } else {
            let mut s = label_number_text(
                self.accounts[idx].config.label.as_str(),
                n,
                " folders (offline \u{2014} ",
            );
            s.append(error.as_str());
            s.append(")");
            s
        };
        if n == 0 && !self.show_setup_dialog && self.accounts.len() == 1 {
            self.show_setup_dialog = true;
            self.password_only_mode = false;
            self.setup_error = Some(text_and_text("Connection failed: ", error.as_str()));
        }
        self.status_message = status;
        assert(self@.accounts.len() == self.accounts.len());
        self.set_conn_state(idx, ConnectionState::Error(error));
    }

    /// An attempt to connect an account ended.
    pub fn account_connected(&mut self, account_id: &str, result: Result<(), String>) -> (effects:
        Vec<Effect>)
        ensures
            final(self)@ == step_account_connected(
                old(self)@,
                account_id@,
                result_text_view(result),
            ).model,
            effects@ == step_account_connected(
                old(self)@,
                account_id@,
                result_text_view(result),
            ).effects,
    {
        let idx = match self.account_index(account_id) {
            Some(idx) => idx,
            None => {
                return Vec::new();
            },
        };
        match result {
            Ok(_) => self.connected(idx),
            Err(e) => {
                self.connection_failed(idx, e);
                Vec::new()
            },
        }
    }
}

} // verus!
