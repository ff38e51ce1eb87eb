use crate::models::{
    AttachmentData, AttachmentDataView, ConnectionState, ConnectionStateView, Folder, FolderView,
    MessageSummary, MessageSummaryView,
};
use crate::seqs::{first_match, lemma_first_match, view_all};
use crate::text::str_eq;
use vstd::prelude::*;

verus! {

/// What an account sets for sending where it differs from what holds for receiving.
/// A field that is `None` follows the settings for receiving.
#[derive(Debug, Clone)]
pub struct SmtpOverrides {
    pub server: Option<String>,
    pub port: Option<u16>,
    pub username: Option<String>,
    pub password: Option<String>,
    pub use_starttls: Option<bool>,
}

/// The settings for sending, as plain values.
pub struct SmtpOverridesView {
    pub server: Option<Seq<char>>,
    pub port: Option<u16>,
    pub username: Option<Seq<char>>,
    pub password: Option<Seq<char>>,
    pub use_starttls: Option<bool>,
}

impl View for SmtpOverrides {
    type V = SmtpOverridesView;

    open spec fn view(&self) -> SmtpOverridesView {
        SmtpOverridesView {
            server: crate::text::opt_view(self.server),
            port: self.port,
            username: crate::text::opt_view(self.username),
            password: crate::text::opt_view(self.password),
            use_starttls: self.use_starttls,
        }
    }
}

/// No settings for sending of their own.
pub open spec fn no_overrides() -> SmtpOverridesView {
    SmtpOverridesView { server: None, port: None, username: None, password: None, use_starttls: None }
}

impl SmtpOverrides {
    /// No settings for sending of their own: everything follows the settings for
    /// receiving.
    pub fn none() -> (o: SmtpOverrides)
        ensures
            o@ == no_overrides(),
    {
        SmtpOverrides { server: None, port: None, username: None, password: None, use_starttls: None }
    }
}

/// How one account reaches its server and under which addresses it sends.
#[derive(Debug, Clone)]
pub struct AccountConfig {
    pub id: String,
    pub label: String,
    pub imap_server: String,
    pub imap_port: u16,
    pub username: String,
    pub password: String,
    pub use_starttls: bool,
    pub email_addresses: Vec<String>,
    pub smtp_overrides: SmtpOverrides,
}

/// The configuration of an account, as plain values.
pub struct AccountConfigView {
    pub id: Seq<char>,
    pub label: Seq<char>,
    pub imap_server: Seq<char>,
    pub imap_port: u16,
    pub username: Seq<char>,
    pub password: Seq<char>,
    pub use_starttls: bool,
    pub email_addresses: Seq<Seq<char>>,
    pub smtp_overrides: SmtpOverridesView,
}

impl View for AccountConfig {
    type V = AccountConfigView;

    open spec fn view(&self) -> AccountConfigView {
        AccountConfigView {
            id: self.id@,
            label: self.label@,
            imap_server: self.imap_server@,
            imap_port: self.imap_port,
            username: self.username@,
            password: self.password@,
            use_starttls: self.use_starttls,
            email_addresses: view_all(self.email_addresses@),
            smtp_overrides: self.smtp_overrides@,
        }
    }
}

/// One configured account with its folders. The session itself lives outside; the state
/// only knows whether there is one.
#[derive(Debug, Clone)]
pub struct AccountState {
    pub config: AccountConfig,
    pub has_session: bool,
    pub conn_state: ConnectionState,
    pub folders: Vec<Folder>,
    pub collapsed: bool,
}

/// The state of an account, as plain values.
pub struct AccountStateView {
    pub config: AccountConfigView,
    pub has_session: bool,
    pub conn_state: ConnectionStateView,
    pub folders: Seq<FolderView>,
    pub collapsed: bool,
}

impl View for AccountState {
    type V = AccountStateView;

    open spec fn view(&self) -> AccountStateView {
        AccountStateView {
            config: self.config@,
            has_session: self.has_session,
            conn_state: self.conn_state@,
            folders: view_all(self.folders@),
            collapsed: self.collapsed,
        }
    }
}

impl AccountState {
    /// A new account: disconnected, without folders.
    pub fn new(config: AccountConfig) -> (a: AccountState)
        ensures
            a@ == (AccountStateView {
                config: config@,
                has_session: false,
                conn_state: ConnectionStateView::Disconnected,
                folders: Seq::empty(),
                collapsed: false,
            }),
    {
        let a = AccountState {
            config,
            has_session: false,
            conn_state: ConnectionState::Disconnected,
            folders: Vec::new(),
            collapsed: false,
        };
        assert(a@.folders =~= Seq::empty());
        a
    }

    /// The mailbox id of the folder with the given path: of the last such folder, where
    /// several have the path.
    pub fn folder_hash(&self, path: &str) -> (r: Option<u64>)
        ensures
            r == spec_folder_hash(self@.folders, path@),
    {
        let ghost fs = self@.folders;
        let mut i: usize = self.folders.len();
        proof {
            assert(fs.take(i as int) =~= fs);
        }
        while i > 0
            invariant
                i <= self.folders.len(),
                fs == self@.folders,
                spec_folder_hash(fs, path@) == spec_folder_hash(fs.take(i as int), path@),
            decreases i,
        {
            let f = &self.folders[i - 1];
            assert(f@ == fs[i - 1]);
            proof {
                assert(fs.take(i as int).last() == fs[i - 1]);
                assert(fs.take(i as int).drop_last() =~= fs.take(i - 1));
            }
            if str_eq(f.path.as_str(), path) {
                return Some(f.mailbox_hash);
            }
            i = i - 1;
        }
        None
    }

    /// Whether one of the account's folders is the mailbox `mailbox_hash`.
    pub fn owns(&self, mailbox_hash: u64) -> (r: bool)
        ensures
            r == owns_mailbox(mailbox_hash)(self@),
    {
        let mut i: usize = 0;
        while i < self.folders.len()
            invariant
                i <= self.folders.len(),
                forall|j: int| 0 <= j < i ==> (#[trigger] self@.folders[j]).mailbox_hash != mailbox_hash,
            decreases self.folders.len() - i,
        {
            assert(self.folders@[i as int]@ == self@.folders[i as int]);
            if self.folders[i].mailbox_hash == mailbox_hash {
                return true;
            }
            i = i + 1;
        }
        false
    }

    /// The place of the inbox among the account's folders.
    pub fn inbox_position(&self) -> (r: Option<usize>)
        ensures
            match r {
                Some(i) => i < self.folders.len() && first_match(self@.folders, is_inbox()) == Some(
                    i as int,
                ),
                None => first_match(self@.folders, is_inbox()) is None,
            },
    {
        let mut i: usize = 0;
        while i < self.folders.len()
            invariant
                i <= self.folders.len(),
                forall|j: int| 0 <= j < i ==> !is_inbox()(#[trigger] self@.folders[j]),
            decreases self.folders.len() - i,
        {
            assert(self.folders@[i as int]@ == self@.folders[i as int]);
            if str_eq(self.folders[i].path.as_str(), "INBOX") {
                proof {
                    lemma_first_match(self@.folders, is_inbox(), Some(i as int));
                }
                return Some(i);
            }
            i = i + 1;
        }
        proof {
            lemma_first_match(self@.folders, is_inbox(), None);
        }
        None
    }
}

/// The mailbox id of the last folder with the given path.
pub open spec fn spec_folder_hash(folders: Seq<FolderView>, path: Seq<char>) -> Option<u64>
    decreases folders.len(),
{
    if folders.len() == 0 {
        None
    } else if folders.last().path == path {
        Some(folders.last().mailbox_hash)
    } else {
        spec_folder_hash(folders.drop_last(), path)
    }
}

/// The test for the inbox.
pub open spec fn is_inbox() -> spec_fn(FolderView) -> bool {
    |f: FolderView| f.path == "INBOX"@
}

/// The test for the accounts that have the mailbox `mailbox_hash` among their folders.
pub open spec fn owns_mailbox(mailbox_hash: u64) -> spec_fn(AccountStateView) -> bool {
    |a: AccountStateView|
        exists|j: int| 0 <= j < a.folders.len() && (#[trigger] a.folders[j]).mailbox_hash == mailbox_hash
}

/// The test for the account with the given id.
pub open spec fn has_account_id(id: Seq<char>) -> spec_fn(AccountStateView) -> bool {
    |a: AccountStateView| a.config.id == id
}

/// The test for the message with the given id.
pub open spec fn has_hash(envelope_hash: u64) -> spec_fn(MessageSummaryView) -> bool {
    |m: MessageSummaryView| m.envelope_hash == envelope_hash
}

/// A message that was taken out of the list while its move is in flight, with the place
/// it had.
#[derive(Debug, Clone)]
pub struct PendingMove {
    pub envelope_hash: u64,
    pub message: MessageSummary,
    pub position: usize,
}

/// A pending move, as plain values.
pub struct PendingMoveView {
    pub envelope_hash: u64,
    pub message: MessageSummaryView,
    pub position: usize,
}

impl View for PendingMove {
    type V = PendingMoveView;

    open spec fn view(&self) -> PendingMoveView {
        PendingMoveView {
            envelope_hash: self.envelope_hash,
            message: self.message@,
            position: self.position,
        }
    }
}

/// The test for the pending move of the message with the given id.
pub open spec fn moves_hash(envelope_hash: u64) -> spec_fn(PendingMoveView) -> bool {
    |p: PendingMoveView| p.envelope_hash == envelope_hash
}

/// The test for the pending moves of all other messages.
pub open spec fn moves_other(envelope_hash: u64) -> spec_fn(PendingMoveView) -> bool {
    |p: PendingMoveView| p.envelope_hash != envelope_hash
}

/// What the mail client shows and knows, apart from what only the widgets need.
#[derive(Debug, Clone)]
pub struct AppModel {
    pub accounts: Vec<AccountState>,
    pub active_account: Option<usize>,
    /// Whether the cache could be opened.
    pub has_cache: bool,
    pub selected_folder: Option<usize>,
    pub messages: Vec<MessageSummary>,
    pub selected_message: Option<usize>,
    pub messages_offset: u32,
    pub has_more_messages: bool,
    pub preview_body: String,
    pub preview_markdown: String,
    pub preview_attachments: Vec<AttachmentData>,
    /// The threads whose replies are hidden. The list stands for a set: no step puts a
    /// thread in twice (`table_laws::threads_distinct`).
    pub collapsed_threads: Vec<u64>,
    /// The places in `messages` of the rows that are shown.
    pub visible_indices: Vec<usize>,
    /// The messages that were taken out of the list for a move that is in flight. The
    /// list stands for a map from message ids: no step leaves two entries for one
    /// message (`table_laws::pending_distinct`).
    pub pending_move_restore: Vec<PendingMove>,
    pub status_message: String,
    pub search_active: bool,
    pub search_query: String,
    pub search_focused: bool,
    pub show_compose_dialog: bool,
    pub is_sending: bool,
    pub show_setup_dialog: bool,
    /// Whether the setup dialog asks for the password alone.
    pub password_only_mode: bool,
    pub setup_error: Option<String>,
    pub folder_drag_target: Option<usize>,
    /// The message whose body is to be shown once a session is there.
    pub pending_body: Option<usize>,
}

/// The state of the mail client, as plain values.
pub struct AppModelView {
    pub accounts: Seq<AccountStateView>,
    pub active_account: Option<usize>,
    pub has_cache: bool,
    pub selected_folder: Option<usize>,
    pub messages: Seq<MessageSummaryView>,
    pub selected_message: Option<usize>,
    pub messages_offset: u32,
    pub has_more_messages: bool,
    pub preview_body: Seq<char>,
    pub preview_markdown: Seq<char>,
    pub preview_attachments: Seq<AttachmentDataView>,
    pub collapsed_threads: Seq<u64>,
    pub visible_indices: Seq<usize>,
    pub pending_move_restore: Seq<PendingMoveView>,
    pub status_message: Seq<char>,
    pub search_active: bool,
    pub search_query: Seq<char>,
    pub search_focused: bool,
    pub show_compose_dialog: bool,
    pub is_sending: bool,
    pub show_setup_dialog: bool,
    pub password_only_mode: bool,
    pub setup_error: Option<Seq<char>>,
    pub folder_drag_target: Option<usize>,
    pub pending_body: Option<usize>,
}

impl View for AppModel {
    type V = AppModelView;

    open spec fn view(&self) -> AppModelView {
        AppModelView {
            accounts: view_all(self.accounts@),
            active_account: self.active_account,
            has_cache: self.has_cache,
            selected_folder: self.selected_folder,
            messages: view_all(self.messages@),
            selected_message: self.selected_message,
            messages_offset: self.messages_offset,
            has_more_messages: self.has_more_messages,
            preview_body: self.preview_body@,
            preview_markdown: self.preview_markdown@,
            preview_attachments: view_all(self.preview_attachments@),
            collapsed_threads: self.collapsed_threads@,
            visible_indices: self.visible_indices@,
            pending_move_restore: view_all(self.pending_move_restore@),
            status_message: self.status_message@,
            search_active: self.search_active,
            search_query: self.search_query@,
            search_focused: self.search_focused,
            show_compose_dialog: self.show_compose_dialog,
            is_sending: self.is_sending,
            show_setup_dialog: self.show_setup_dialog,
            password_only_mode: self.password_only_mode,
            setup_error: crate::text::opt_view(self.setup_error),
            folder_drag_target: self.folder_drag_target,
            pending_body: self.pending_body,
        }
    }
}

/// Whether a message is the hidden reply of a collapsed thread.
pub open spec fn hidden(m: MessageSummaryView, collapsed: Seq<u64>) -> bool {
    m.thread_depth > 0 && m.thread_id is Some && collapsed.contains(m.thread_id->0)
}

/// The places of the messages that are shown: all but the replies of collapsed threads.
pub open spec fn spec_visible(messages: Seq<MessageSummaryView>, collapsed: Seq<u64>) -> Seq<usize>
    decreases messages.len(),
{
    if messages.len() == 0 {
        Seq::empty()
    } else {
        let rest = spec_visible(messages.drop_last(), collapsed);
        if hidden(messages.last(), collapsed) {
            rest
        } else {
            rest.push((messages.len() - 1) as usize)
        }
    }
}

/// The number of messages of a thread in the list.
pub open spec fn spec_thread_size(messages: Seq<MessageSummaryView>, thread: u64) -> nat
    decreases messages.len(),
{
    if messages.len() == 0 {
        0
    } else {
        let rest = spec_thread_size(messages.drop_last(), thread);
        if messages.last().thread_id == Some(thread) {
            rest + 1
        } else {
            rest
        }
    }
}

/// Whether `x` is among `v`.
pub fn contains_u64(v: &Vec<u64>, x: u64) -> (r: bool)
    ensures
        r == v@.contains(x),
{
    let mut i: usize = 0;
    while i < v.len()
        invariant
            i <= v.len(),
            forall|j: int| 0 <= j < i ==> v@[j] != x,
        decreases v.len() - i,
    {
        if v[i] == x {
            return true;
        }
        i = i + 1;
    }
    false
}

/// The state with which the client starts: `AppModel::new` gives it.
pub open spec fn initial_model(has_cache: bool) -> AppModelView {
    AppModelView {
        accounts: Seq::empty(),
        active_account: None,
        has_cache: has_cache,
        selected_folder: None,
        messages: Seq::empty(),
        selected_message: None,
        messages_offset: 0,
        has_more_messages: false,
        preview_body: Seq::empty(),
        preview_markdown: Seq::empty(),
        preview_attachments: Seq::empty(),
        collapsed_threads: Seq::empty(),
        visible_indices: Seq::empty(),
        pending_move_restore: Seq::empty(),
        status_message: "Starting up..."@,
        search_active: false,
        search_query: Seq::empty(),
        search_focused: false,
        show_compose_dialog: false,
        is_sending: false,
        show_setup_dialog: false,
        password_only_mode: false,
        setup_error: None,
        folder_drag_target: None,
        pending_body: None,
    }
}

impl AppModel {
    /// The state at start: no accounts, nothing selected, nothing shown.
    pub fn new(has_cache: bool) -> (m: AppModel)
        ensures
            m@ == initial_model(has_cache),
    {
        let m = AppModel {
            accounts: Vec::new(),
            active_account: None,
            has_cache,
            selected_folder: None,
            messages: Vec::new(),
            selected_message: None,
            messages_offset: 0,
            has_more_messages: false,
            preview_body: String::new(),
            preview_markdown: String::new(),
            preview_attachments: Vec::new(),
            collapsed_threads: Vec::new(),
            visible_indices: Vec::new(),
            pending_move_restore: Vec::new(),
            status_message: String::from_str("Starting up..."),
            search_active: false,
            search_query: String::new(),
            search_focused: false,
            show_compose_dialog: false,
            is_sending: false,
            show_setup_dialog: false,
            password_only_mode: false,
            setup_error: None,
            folder_drag_target: None,
            pending_body: None,
        };
        assert(m@.accounts =~= Seq::empty());
        assert(m@.messages =~= Seq::empty());
        assert(m@.preview_attachments =~= Seq::empty());
        assert(m@.pending_move_restore =~= Seq::empty());
        m
    }

    /// The place of the first account that has the mailbox among its folders.
    pub fn account_for_mailbox(&self, mailbox_hash: u64) -> (r: Option<usize>)
        ensures
            match r {
                Some(i) => i < self.accounts.len() && first_match(
                    self@.accounts,
                    owns_mailbox(mailbox_hash),
                ) == Some(i as int),
                None => first_match(self@.accounts, owns_mailbox(mailbox_hash)) is None,
            },
    {
        let mut i: usize = 0;
        while i < self.accounts.len()
            invariant
                i <= self.accounts.len(),
                forall|j: int| 0 <= j < i ==> !owns_mailbox(mailbox_hash)(#[trigger] self@.accounts[j]),
            decreases self.accounts.len() - i,
        {
            assert(self.accounts@[i as int]@ == self@.accounts[i as int]);
            if self.accounts[i].owns(mailbox_hash) {
                proof {
                    lemma_first_match(self@.accounts, owns_mailbox(mailbox_hash), Some(i as int));
                }
                return Some(i);
            }
            i = i + 1;
        }
        proof {
            lemma_first_match(self@.accounts, owns_mailbox(mailbox_hash), None);
        }
        None
    }

    /// The place of the account with the given id.
    pub fn account_index(&self, account_id: &str) -> (r: Option<usize>)
        ensures
            match r {
                Some(i) => i < self.accounts.len() && first_match(
                    self@.accounts,
                    has_account_id(account_id@),
                ) == Some(i as int),
                None => first_match(self@.accounts, has_account_id(account_id@)) is None,
            },
    {
        let mut i: usize = 0;
        while i < self.accounts.len()
            invariant
                i <= self.accounts.len(),
                forall|j: int| 0 <= j < i ==> !has_account_id(account_id@)(#[trigger] self@.accounts[j]),
            decreases self.accounts.len() - i,
        {
            assert(self.accounts@[i as int]@ == self@.accounts[i as int]);
            if str_eq(self.accounts[i].config.id.as_str(), account_id) {
                proof {
                    lemma_first_match(self@.accounts, has_account_id(account_id@), Some(i as int));
                }
                return Some(i);
            }
            i = i + 1;
        }
        proof {
            lemma_first_match(self@.accounts, has_account_id(account_id@), None);
        }
        None
    }

    /// The place in the list of the message with the given id.
    pub fn message_position(&self, envelope_hash: u64) -> (r: Option<usize>)
        ensures
            match r {
                Some(i) => i < self.messages.len() && first_match(
                    self@.messages,
                    has_hash(envelope_hash),
                ) == Some(i as int),
                None => first_match(self@.messages, has_hash(envelope_hash)) is None,
            },
    {
        let mut i: usize = 0;
        while i < self.messages.len()
            invariant
                i <= self.messages.len(),
                forall|j: int| 0 <= j < i ==> !has_hash(envelope_hash)(#[trigger] self@.messages[j]),
            decreases self.messages.len() - i,
        {
            assert(self.messages@[i as int]@ == self@.messages[i as int]);
            if self.messages[i].envelope_hash == envelope_hash {
                proof {
                    lemma_first_match(self@.messages, has_hash(envelope_hash), Some(i as int));
                }
                return Some(i);
            }
            i = i + 1;
        }
        proof {
            lemma_first_match(self@.messages, has_hash(envelope_hash), None);
        }
        None
    }

    /// Whether the active account is connecting or synchronising.
    pub fn is_busy(&self) -> (r: bool)
        ensures
            r == spec_is_busy(self@),
    {
        match self.active_account {
            Some(i) => if i < self.accounts.len() {
                assert(self.accounts@[i as int]@ == self@.accounts[i as int]);
                self.accounts[i].conn_state.is_busy()
            } else {
                false
            },
            None => false,
        }
    }

    /// Works out anew which messages are shown.
    pub fn recompute_visible(&mut self)
        ensures
            final(self)@ == (AppModelView {
                visible_indices: spec_visible(old(self)@.messages, old(self)@.collapsed_threads),
                ..old(self)@
            }),
    {
        let ghost msgs = self@.messages;
        let mut out: Vec<usize> = Vec::new();
        let mut i: usize = 0;
        proof {
            assert(msgs.take(0) =~= Seq::<MessageSummaryView>::empty());
        }
        while i < self.messages.len()
            invariant
                i <= self.messages.len(),
                msgs == self@.messages,
                *self == *old(self),
                out@ == spec_visible(msgs.take(i as int), self@.collapsed_threads),
            decreases self.messages.len() - i,
        {
            let m = &self.messages[i];
            assert(m@ == msgs[i as int]);
            proof {
                assert(msgs.take(i + 1).drop_last() =~= msgs.take(i as int));
                assert(msgs.take(i + 1).last() == msgs[i as int]);
            }
            let is_hidden = m.thread_depth > 0 && match m.thread_id {
                Some(t) => contains_u64(&self.collapsed_threads, t),
                None => false,
            };
            if !is_hidden {
                out.push(i);
            }
            i = i + 1;
        }
        assert(msgs.take(i as int) =~= msgs);
        self.visible_indices = out;
    }

    /// The number of messages of a thread in the list.
    pub fn thread_size(&self, thread: u64) -> (n: usize)
        ensures
            n == spec_thread_size(self@.messages, thread),
    {
        let ghost msgs = self@.messages;
        let mut n: usize = 0;
        let mut i: usize = 0;
        proof {
            assert(msgs.take(0) =~= Seq::<MessageSummaryView>::empty());
        }
        while i < self.messages.len()
            invariant
                i <= self.messages.len(),
                msgs == self@.messages,
                n <= i,
                n == spec_thread_size(msgs.take(i as int), thread),
            decreases self.messages.len() - i,
        {
            let m = &self.messages[i];
            assert(m@ == msgs[i as int]);
            proof {
                assert(msgs.take(i + 1).drop_last() =~= msgs.take(i as int));
                assert(msgs.take(i + 1).last() == msgs[i as int]);
            }
            let same = match m.thread_id {
                Some(t) => t == thread,
                None => false,
            };
            if same {
                n = n + 1;
            }
            i = i + 1;
        }
        assert(msgs.take(i as int) =~= msgs);
        n
    }
}

/// Whether the active account is connecting or synchronising.
pub open spec fn spec_is_busy(m: AppModelView) -> bool {
    match m.active_account {
        Some(i) => i < m.accounts.len() && (m.accounts[i as int].conn_state is Connecting
            || m.accounts[i as int].conn_state is Syncing),
        None => false,
    }
}

} // verus!
