use crate::actions::{only_status, unchanged, Outcome};
use crate::config::{ConfigNeedsInput, ConfigNeedsInputView};
use crate::effects::Effect;
use crate::model::{
    has_account_id, initial_model, AccountConfig, AccountConfigView, AccountState, AccountStateView,
    AppModel, AppModelView,
};
use crate::models::{ConnectionState, ConnectionStateView, MessageSummaryView};
use crate::seqs::{first_match, view_all};
use crate::sync::set_account;
use crate::text::{number_and_text, spec_decimal, text_and_text};
use vstd::prelude::*;
use vstd::string::*;

verus! {

/// The account that a configuration starts as: it is connecting and has no folders yet.
pub open spec fn connecting_account(config: AccountConfigView) -> AccountStateView {
    AccountStateView {
        config: config,
        has_session: false,
        conn_state: ConnectionStateView::Connecting,
        folders: Seq::empty(),
        collapsed: false,
    }
}

/// The accounts that a list of configurations starts as.
pub open spec fn connecting_accounts(configs: Seq<AccountConfigView>) -> Seq<AccountStateView> {
    Seq::new(configs.len(), |i: int| connecting_account(configs[i]))
}

/// What is asked for at start for the first `n` accounts: with a cache the cached
/// folders of each, and for each a connection.
pub open spec fn start_effects(has_cache: bool, n: nat) -> Seq<Effect>
    decreases n,
{
    if n == 0 {
        Seq::empty()
    } else {
        let rest = start_effects(has_cache, (n - 1) as nat);
        let idx = (n - 1) as usize;
        if has_cache {
            rest.push(Effect::CacheLoadFolders { account: idx }).push(Effect::Connect { account: idx })
        } else {
            rest.push(Effect::Connect { account: idx })
        }
    }
}

/// The start of the client with the accounts that were configured. Without an account
/// the setup dialog opens.
pub open spec fn start_with_accounts(has_cache: bool, configs: Seq<AccountConfigView>) -> Outcome {
    let m = AppModelView { accounts: connecting_accounts(configs), ..initial_model(has_cache) };
    if configs.len() == 0 {
        unchanged(
            AppModelView {
                show_setup_dialog: true,
                status_message: "Setup required \u{2014} enter your account details"@,
                ..m
            },
        )
    } else {
        Outcome { model: m, effects: start_effects(has_cache, configs.len()) }
    }
}

/// The start of the client where the configuration is incomplete: the setup dialog
/// opens, for everything or for the password alone.
pub open spec fn start_needing_input(has_cache: bool, needs: ConfigNeedsInputView) -> AppModelView {
    match needs {
        ConfigNeedsInputView::FullSetup => AppModelView {
            show_setup_dialog: true,
            status_message: "Setup required \u{2014} enter your account details"@,
            ..initial_model(has_cache)
        },
        ConfigNeedsInputView::PasswordOnly { server, port, username, starttls, error } => AppModelView {
            show_setup_dialog: true,
            password_only_mode: true,
            setup_error: error,
            status_message: "Password required"@,
            ..initial_model(has_cache)
        },
    }
}

/// The state after an account was removed. The active account keeps its identity; if
/// it is the removed one, nothing is active and the list is emptied.
pub open spec fn without_account(m: AppModelView, idx: int) -> AppModelView {
    let accounts = m.accounts.remove(idx);
    let m1 = AppModelView { accounts: accounts, status_message: "Account removed"@, ..m };
    match m.active_account {
        Some(active) => if active == idx {
            AppModelView {
                active_account: None,
                messages: Seq::empty(),
                selected_folder: None,
                preview_body: Seq::empty(),
                preview_markdown: Seq::empty(),
                ..m1
            }
        } else if active > idx {
            AppModelView { active_account: Some((active - 1) as usize), ..m1 }
        } else {
            m1
        },
        None => m1,
    }
}

/// The state after the setup of an account was stored, or storing it failed. A stored
/// account replaces the one with its id or is added at the end; it connects.
pub open spec fn step_account_configured(
    m: AppModelView,
    config: AccountConfigView,
    saved: Result<(), Seq<char>>,
) -> Outcome {
    match saved {
        Err(e) => unchanged(
            AppModelView { setup_error: Some("Failed to save config: "@ + e), ..m },
        ),
        Ok(_) => {
            let found = first_match(m.accounts, has_account_id(config.id));
            let accounts = match found {
                Some(idx) => m.accounts.update(
                    idx,
                    AccountStateView {
                        config: config,
                        conn_state: ConnectionStateView::Connecting,
                        has_session: false,
                        ..m.accounts[idx]
                    },
                ),
                None => m.accounts.push(connecting_account(config)),
            };
            let idx = match found {
                Some(idx) => idx,
                None => m.accounts.len() as int,
            };
            Outcome {
                model: AppModelView {
                    accounts: accounts,
                    show_setup_dialog: false,
                    setup_error: None,
                    status_message: config.label + ": Connecting..."@,
                    ..m
                },
                effects: seq![Effect::Connect { account: idx as usize }],
            }
        },
    }
}

/// The number of folders of all accounts together.
pub open spec fn total_folders(accounts: Seq<AccountStateView>) -> nat
    decreases accounts.len(),
{
    if accounts.len() == 0 {
        0
    } else {
        total_folders(accounts.drop_last()) + accounts.last().folders.len()
    }
}

/// The number of folders of all accounts together, as far as a machine number counts.
pub open spec fn shown_total(accounts: Seq<AccountStateView>) -> nat {
    if total_folders(accounts) <= usize::MAX {
        total_folders(accounts)
    } else {
        usize::MAX as nat
    }
}

/// The user closes the setup dialog without storing anything.
pub open spec fn step_setup_cancel(m: AppModelView) -> Outcome {
    only_status(
        AppModelView { show_setup_dialog: false, ..m },
        if m.accounts.len() == 0 {
            "Not connected \u{2014} no cached data"@
        } else {
            spec_decimal(shown_total(m.accounts)) + " folders (offline)"@
        },
    )
}

/// The view of a removed account, if one was removed.
pub open spec fn opt_account_view(a: Option<AccountState>) -> Option<AccountStateView> {
    match a {
        Some(a) => Some(a@),
        None => None,
    }
}

impl AppModel {
    /// Starts the client with the accounts that were configured.
    pub fn start(has_cache: bool, configs: Vec<AccountConfig>) -> (r: (AppModel, Vec<Effect>))
        ensures
            r.0@ == start_with_accounts(has_cache, view_all(configs@)).model,
            r.1@ == start_with_accounts(has_cache, view_all(configs@)).effects,
    {
        let mut m = AppModel::new(has_cache);
        let mut effects: Vec<Effect> = Vec::new();
        let ghost given = view_all(configs@);
        let mut configs = configs;
        let ghost mut taken: int = given.len() as int;
        let n = configs.len();
        assert(given.len() == n);
        // Accounts are taken from the end of the list and put in front, which keeps
        // their order.
        let mut states: Vec<AccountState> = Vec::new();
        while configs.len() > 0
            invariant
                configs.len() <= n,
                n == given.len(),
                view_all(configs@) == given.take(configs.len() as int),
                states.len() == n - configs.len(),
                forall|j: int|
                    0 <= j < states.len() ==> (#[trigger] states@[j])@ == connecting_account(
                        given[configs.len() + j],
                    ),
            decreases configs.len(),
        {
            let ghost before = view_all(configs@);
            let ghost old_states = states@;
            let c = configs.pop().unwrap();
            assert(c@ == before[before.len() - 1]);
            assert(view_all(configs@) =~= given.take(configs.len() as int));
            let mut a = AccountState::new(c);
            a.conn_state = ConnectionState::Connecting;
            states.insert(0, a);
            assert forall|j: int| 0 <= j < states.len() implies (#[trigger] states@[j])@
                == connecting_account(given[configs.len() + j]) by {
                if j > 0 {
                    assert(states@[j] == old_states[j - 1]);
                }
            }
        }
        assert(view_all(states@) =~= connecting_accounts(given));
        m.accounts = states;
        if n == 0 {
            m.show_setup_dialog = true;
            m.status_message = String::from_str("Setup required \u{2014} enter your account details");
            return (m, effects);
        }
        let mut i: usize = 0;
        while i < n
            invariant
                i <= n,
                effects@ == start_effects(has_cache, i as nat),
            decreases n - i,
        {
            if has_cache {
                effects.push(Effect::CacheLoadFolders { account: i });
            }
            effects.push(Effect::Connect { account: i });
            i = i + 1;
        }
        (m, effects)
    }

    /// Starts the client where the configuration is incomplete.
    pub fn start_with_setup(has_cache: bool, needs: ConfigNeedsInput) -> (m: AppModel)
        ensures
            m@ == start_needing_input(has_cache, needs@),
    {
        let mut m = AppModel::new(has_cache);
        m.show_setup_dialog = true;
        match needs {
            ConfigNeedsInput::FullSetup => {
                m.status_message = String::from_str(
                    "Setup required \u{2014} enter your account details",
                );
            },
            ConfigNeedsInput::PasswordOnly { server, port, username, starttls, error } => {
                m.password_only_mode = true;
                m.setup_error = error;
                m.status_message = String::from_str("Password required");
            },
        }
        m
    }

    /// The user asks for a new account: the setup dialog opens for everything.
    pub fn account_add(&mut self)
        ensures
            final(self)@ == (AppModelView {
                show_setup_dialog: true,
                password_only_mode: false,
                setup_error: None,
                ..old(self)@
            }),
    {
        self.show_setup_dialog = true;
        self.password_only_mode = false;
        self.setup_error = None;
    }

    /// Removes the account with the given id and hands it out, so that what is stored
    /// for it outside can be removed too.
    pub fn account_remove(&mut self, account_id: &str) -> (removed: Option<AccountState>)
        ensures
            match first_match(old(self)@.accounts, has_account_id(account_id@)) {
                Some(idx) => final(self)@ == without_account(old(self)@, idx) && opt_account_view(
                    removed,
                ) == Some(old(self)@.accounts[idx]),
                None => final(self)@ == old(self)@ && removed is None,
            },
    {
        let idx = match self.account_index(account_id) {
            Some(idx) => idx,
            None => {
                return None;
            },
        };
        let removed = self.accounts.remove(idx);
        assert(self@.accounts =~= old(self)@.accounts.remove(idx as int));
        match self.active_account {
            Some(active) => {
                if active == idx {
                    self.active_account = None;
                    self.messages = Vec::new();
                    self.selected_folder = None;
                    self.preview_body = String::new();
                    self.preview_markdown = String::new();
                    assert(self@.messages =~= Seq::<MessageSummaryView>::empty());
                } else if active > idx {
                    self.active_account = Some(active - 1);
                }
            },
            None => {},
        }
        self.status_message = String::from_str("Account removed");
        Some(removed)
    }

    /// The user folds or unfolds the folders of an account in the sidebar.
    pub fn toggle_account_collapse(&mut self, idx: usize)
        ensures
            final(self)@ == (if idx < old(self)@.accounts.len() {
                set_account(
                    old(self)@,
                    idx as int,
                    AccountStateView {
                        collapsed: !old(self)@.accounts[idx as int].collapsed,
                        ..old(self)@.accounts[idx as int]
                    },
                )
            } else {
                old(self)@
            }),
    {
        if idx < self.accounts.len() {
            assert(self.accounts@[idx as int]@ == self@.accounts[idx as int]);
            let c = self.accounts[idx].collapsed;
            self.accounts[idx].collapsed = !c;
            assert(self@.accounts =~= old(self)@.accounts.update(
                idx as int,
                AccountStateView {
                    collapsed: !old(self)@.accounts[idx as int].collapsed,
                    ..old(self)@.accounts[idx as int]
                },
            ));
        }
    }

    /// Puts a configured account in place of the one at `idx`.
    fn replace_account(&mut self, idx: usize, config: AccountConfig)
        requires
            idx < old(self).accounts.len(),
        ensures
            final(self)@ == set_account(
                old(self)@,
                idx as int,
                AccountStateView {
                    config: config@,
                    conn_state: ConnectionStateView::Connecting,
                    has_session: false,
                    ..old(self)@.accounts[idx as int]
                },
            ),
    {
        assert(self.accounts@[idx as int]@ == self@.accounts[idx as int]);
        self.accounts[idx].config = config;
        self.accounts[idx].conn_state = ConnectionState::Connecting;
        self.accounts[idx].has_session = false;
        assert(self@.accounts =~= old(self)@.accounts.update(
            idx as int,
            AccountStateView {
                config: config@,
                conn_state: ConnectionStateView::Connecting,
                has_session: false,
                ..old(self)@.accounts[idx as int]
            },
        ));
    }

    /// The setup of an account was stored, or storing it failed.
    pub fn account_configured(&mut self, config: AccountConfig, saved: Result<(), String>) -> (effects:
        Vec<Effect>)
        ensures
            final(self)@ == step_account_configured(
                old(self)@,
                config@,
                crate::text::result_text_view(saved),
            ).model,
            effects@ == step_account_configured(
                old(self)@,
                config@,
                crate::text::result_text_view(saved),
            ).effects,
    {
        let mut effects: Vec<Effect> = Vec::new();
        match saved {
            Err(e) => {
                self.setup_error = Some(text_and_text("Failed to save config: ", e.as_str()));
                return effects;
            },
            Ok(_) => {},
        }
        self.show_setup_dialog = false;
        self.setup_error = None;
        self.status_message = text_and_text(config.label.as_str(), ": Connecting...");
        assert(self@.accounts.len() == self.accounts.len());
        let idx = match self.account_index(config.id.as_str()) {
            Some(idx) => {
                self.replace_account(idx, config);
                idx
            },
            None => {
                let idx = self.accounts.len();
                let mut a = AccountState::new(config);
                a.conn_state = ConnectionState::Connecting;
                let ghost before = self@.accounts;
                self.accounts.push(a);
                assert(self@.accounts =~= before.push(connecting_account(config@)));
                idx
            },
        };
        effects.push(Effect::Connect { account: idx });
        assert(effects@ =~= seq![Effect::Connect { account: idx }]);
        effects
    }

    /// The number of folders of all accounts together; it stops at the largest number.
    fn count_folders(&self) -> (n: usize)
        ensures
            n == shown_total(self@.accounts),
    {
        let ghost accounts = self@.accounts;
        let mut n: usize = 0;
        let mut i: usize = 0;
        proof {
            assert(accounts.take(0) =~= Seq::<AccountStateView>::empty());
        }
        while i < self.accounts.len()
            invariant
                i <= self.accounts.len(),
                accounts == self@.accounts,
                n == total_folders(accounts.take(i as int)) || (n == usize::MAX && total_folders(
                    accounts.take(i as int),
                ) > usize::MAX),
            decreases self.accounts.len() - i,
        {
            assert(self.accounts@[i as int]@ == accounts[i as int]);
            proof {
                assert(accounts.take(i + 1).drop_last() =~= accounts.take(i as int));
                assert(accounts.take(i + 1).last() == accounts[i as int]);
            }
            let k = self.accounts[i].folders.len();
            n = if n <= usize::MAX - k {
                n + k
            } else {
                usize::MAX
            };
            i = i + 1;
        }
        assert(accounts.take(i as int) =~= accounts);
        n
    }

    /// The user closes the setup dialog without storing anything.
    pub fn setup_cancel(&mut self) -> (effects: Vec<Effect>)
        ensures
            final(self)@ == step_setup_cancel(old(self)@).model,
            effects@ == step_setup_cancel(old(self)@).effects,
    {
        self.show_setup_dialog = false;
        assert(self@.accounts.len() == self.accounts.len());
        if self.accounts.len() == 0 {
            self.status_message = String::from_str("Not connected \u{2014} no cached data");
        } else {
            let n = self.count_folders();
            self.status_message = number_and_text(n, " folders (offline)");
        }
        Vec::new()
    }
}

} // verus!
