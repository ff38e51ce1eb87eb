use crate::actions::{only_status, unchanged, Outcome};
use crate::body::{as_place, step_view_body};
use crate::effects::Effect;
use crate::model::{has_account_id, is_inbox, spec_visible, AccountStateView, AppModelView};
use crate::models::{ConnectionStateView, FolderView, MessageSummaryView};
use crate::paging::DEFAULT_PAGE_SIZE;
use crate::seqs::first_match;
use crate::text::spec_decimal;
use vstd::prelude::*;

verus! {

/// The state with one account replaced.
pub open spec fn set_account(m: AppModelView, idx: int, a: AccountStateView) -> AppModelView {
    AppModelView { accounts: m.accounts.update(idx, a), ..m }
}

/// The request for the first page of a mailbox.
pub open spec fn first_page(account: int, mailbox_hash: u64) -> Effect {
    Effect::CacheLoadMessages {
        account: account as usize,
        mailbox_hash: mailbox_hash,
        limit: DEFAULT_PAGE_SIZE,
        offset: 0,
    }
}

/// The mailbox that is shown: the selected folder of the active account.
pub open spec fn active_mailbox(m: AppModelView) -> Option<u64> {
    match (m.active_account, m.selected_folder) {
        (Some(a), Some(f)) => if a < m.accounts.len() && f < m.accounts[a as int].folders.len() {
            Some(m.accounts[a as int].folders[f as int].mailbox_hash)
        } else {
            None
        },
        _ => None,
    }
}

/// The folders of an account arrived from the cache. Empty lists and unknown accounts
/// are passed over. While no account is active and the folders hold an inbox, the
/// account becomes the active one with its inbox selected, and with a cache the first
/// page of the inbox is asked for.
pub open spec fn step_cached_folders_loaded(
    m: AppModelView,
    account_id: Seq<char>,
    result: Result<Seq<FolderView>, Seq<char>>,
) -> Outcome {
    match result {
        Err(_) => unchanged(m),
        Ok(folders) => match first_match(m.accounts, has_account_id(account_id)) {
            None => unchanged(m),
            Some(idx) => if folders.len() == 0 {
                unchanged(m)
            } else {
                let m1 = set_account(m, idx, AccountStateView { folders: folders, ..m.accounts[idx] });
                let status = spec_decimal(folders.len()) + " folders (cached)"@;
                match first_match(folders, is_inbox()) {
                    Some(fi) => if m.active_account is None {
                        let m2 = AppModelView {
                            active_account: Some(idx as usize),
                            selected_folder: Some(fi as usize),
                            ..m1
                        };
                        if m.has_cache {
                            Outcome {
                                model: AppModelView { messages_offset: 0, ..m2 },
                                effects: seq![first_page(idx, folders[fi].mailbox_hash)],
                            }
                        } else {
                            only_status(m2, status)
                        }
                    } else {
                        only_status(m1, status)
                    },
                    None => only_status(m1, status),
                }
            },
        },
    }
}

/// A page of messages arrived from the cache. At offset zero it replaces the list,
/// otherwise it is added at the end. More is expected exactly when the page is full.
pub open spec fn step_cached_messages_loaded(
    m: AppModelView,
    result: Result<Seq<MessageSummaryView>, Seq<char>>,
) -> Outcome {
    match result {
        Err(_) => unchanged(m),
        Ok(page) => {
            let messages = if m.messages_offset == 0 {
                page
            } else {
                m.messages + page
            };
            let m1 = AppModelView {
                has_more_messages: page.len() == DEFAULT_PAGE_SIZE,
                messages: messages,
                visible_indices: spec_visible(messages, m.collapsed_threads),
                ..m
            };
            if messages.len() > 0 {
                only_status(m1, spec_decimal(messages.len()) + " messages"@)
            } else {
                unchanged(m1)
            }
        },
    }
}

/// The state with the body request that waited taken up, and the effects of that put
/// behind `first`.
pub open spec fn then_pending_body(m: AppModelView, first: Seq<Effect>) -> Outcome {
    match m.pending_body {
        Some(index) => {
            let viewed = step_view_body(AppModelView { pending_body: None, ..m }, index);
            Outcome { model: viewed.model, effects: first + viewed.effects }
        },
        None => Outcome { model: m, effects: first },
    }
}

/// The status line for an account with a number of folders.
pub open spec fn folders_text(label: Seq<char>, n: nat, tail: Seq<char>) -> Seq<char> {
    label + ": "@ + spec_decimal(n) + tail
}

/// The account at `idx` is connected: it synchronises, its folders are fetched, and a
/// body request that waited is taken up.
pub open spec fn connected_at(m: AppModelView, idx: int) -> Outcome {
    let a = m.accounts[idx];
    let n = a.folders.len();
    let m1 = set_account(
        m,
        idx,
        AccountStateView { has_session: true, conn_state: ConnectionStateView::Syncing, ..a },
    );
    let status = if n == 0 {
        a.config.label + ": Connected. Loading folders..."@
    } else {
        folders_text(a.config.label, n, " folders (syncing...)"@)
    };
    then_pending_body(
        AppModelView { status_message: status, ..m1 },
        seq![Effect::FetchFolders { account: idx as usize }],
    )
}

/// The account at `idx` could not be connected: it is in error, and where it is the
/// only account and nothing of it is cached, the setup dialog asks for the credentials
/// again.
pub open spec fn connection_failed_at(m: AppModelView, idx: int, e: Seq<char>) -> Outcome {
    let a = m.accounts[idx];
    let n = a.folders.len();
    let m1 = set_account(m, idx, AccountStateView { conn_state: ConnectionStateView::Error(e), ..a });
    let m2 = if n == 0 && !m.show_setup_dialog && m.accounts.len() == 1 {
        AppModelView {
            show_setup_dialog: true,
            password_only_mode: false,
            setup_error: Some("Connection failed: "@ + e),
            ..m1
        }
    } else {
        m1
    };
    only_status(
        m2,
        if n == 0 {
            a.config.label + ": Connection failed: "@ + e
        } else {
            folders_text(a.config.label, n, " folders (offline \u{2014} "@) + e + ")"@
        },
    )
}

/// An attempt to connect an account ended. An answer for an unknown account is passed
/// over.
pub open spec fn step_account_connected(
    m: AppModelView,
    account_id: Seq<char>,
    result: Result<(), Seq<char>>,
) -> Outcome {
    match first_match(m.accounts, has_account_id(account_id)) {
        None => unchanged(m),
        Some(idx) => match result {
            Ok(_) => connected_at(m, idx),
            Err(e) => connection_failed_at(m, idx, e),
        },
    }
}

/// Fresh folders of the account at `idx` arrived from the server and replace the old
/// ones. An account without a selected folder gets its inbox selected; where no account
/// is active this one becomes it. For the active account the messages of the selected
/// folder are then fetched.
pub open spec fn folders_synced_at(m: AppModelView, idx: int, folders: Seq<FolderView>) -> Outcome {
    let a = m.accounts[idx];
    let m1 = set_account(
        m,
        idx,
        AccountStateView { folders: folders, conn_state: ConnectionStateView::Connected, ..a },
    );
    let inbox = as_place(first_match(folders, is_inbox()));
    let takes_inbox = inbox is Some && (m.active_account is None || (m.active_account == Some(
        idx as usize,
    ) && m.selected_folder is None));
    let folder = if takes_inbox {
        inbox
    } else {
        m.selected_folder
    };
    let active = if m.active_account is None {
        Some(idx as usize)
    } else {
        m.active_account
    };
    let m2 = AppModelView {
        active_account: active,
        selected_folder: folder,
        status_message: folders_text(a.config.label, folders.len(), " folders"@),
        ..m1
    };
    let fetch = active == Some(idx as usize) && folder is Some && folder->0 < folders.len()
        && a.has_session;
    Outcome {
        model: m2,
        effects: if fetch {
            seq![
                Effect::FetchMessages {
                    account: idx as usize,
                    mailbox_hash: folders[folder->0 as int].mailbox_hash,
                },
            ]
        } else {
            Seq::empty()
        },
    }
}

/// Fetching the folders of the account at `idx` failed: the account counts as connected
/// and keeps the folders it had.
pub open spec fn folders_failed_at(m: AppModelView, idx: int, e: Seq<char>) -> Outcome {
    let a = m.accounts[idx];
    let m1 = set_account(m, idx, AccountStateView { conn_state: ConnectionStateView::Connected, ..a });
    only_status(
        m1,
        if a.folders.len() == 0 {
            a.config.label + ": Failed to load folders: "@ + e
        } else {
            folders_text(a.config.label, a.folders.len(), " folders (sync failed: "@) + e + ")"@
        },
    )
}

/// The folders of an account arrived from the server, or fetching them failed. An answer
/// for an unknown account is passed over.
pub open spec fn step_sync_folders_complete(
    m: AppModelView,
    account_id: Seq<char>,
    result: Result<Seq<FolderView>, Seq<char>>,
) -> Outcome {
    match first_match(m.accounts, has_account_id(account_id)) {
        None => unchanged(m),
        Some(idx) => match result {
            Ok(folders) => folders_synced_at(m, idx, folders),
            Err(e) => folders_failed_at(m, idx, e),
        },
    }
}

/// The state with the active account marked as connected.
pub open spec fn mark_active_connected(m: AppModelView) -> AppModelView {
    match m.active_account {
        Some(i) => if i < m.accounts.len() {
            set_account(
                m,
                i as int,
                AccountStateView {
                    conn_state: ConnectionStateView::Connected,
                    ..m.accounts[i as int]
                },
            )
        } else {
            m
        },
        None => m,
    }
}

/// Fetching the messages of the shown mailbox ended. On success, with a cache, the first
/// page is read again from the cache, which by then holds what cache and server know
/// together; a body request that waited is taken up.
pub open spec fn step_sync_messages_complete(m: AppModelView, result: Result<(), Seq<char>>) -> Outcome {
    let m1 = mark_active_connected(m);
    match result {
        Ok(_) => match (m.has_cache, active_mailbox(m)) {
            (true, Some(mailbox)) => then_pending_body(
                AppModelView { messages_offset: 0, ..m1 },
                seq![first_page(m.active_account->0 as int, mailbox)],
            ),
            _ => if m.pending_body is Some {
                then_pending_body(m1, Seq::empty())
            } else {
                only_status(m1, spec_decimal(m.messages.len()) + " messages (synced)"@)
            },
        },
        Err(e) => only_status(m1, "Sync failed: "@ + e),
    }
}

/// The user selects a folder. The list is emptied; with a cache its first page is asked
/// for at once, and with a session the folder is fetched from the server behind that.
pub open spec fn step_select_folder(m: AppModelView, account: usize, folder: usize) -> Outcome {
    let m1 = AppModelView {
        active_account: Some(account),
        selected_folder: Some(folder),
        messages: Seq::empty(),
        selected_message: None,
        preview_body: Seq::empty(),
        preview_markdown: Seq::empty(),
        preview_attachments: Seq::empty(),
        messages_offset: 0,
        has_more_messages: false,
        collapsed_threads: Seq::empty(),
        visible_indices: Seq::empty(),
        ..m
    };
    if account < m.accounts.len() && folder < m.accounts[account as int].folders.len() {
        let a = m.accounts[account as int];
        let f = a.folders[folder as int];
        let cache_part = if m.has_cache {
            seq![first_page(account as int, f.mailbox_hash)]
        } else {
            Seq::empty()
        };
        if a.has_session {
            Outcome {
                model: AppModelView {
                    status_message: "Loading "@ + f.name + "..."@,
                    ..set_account(
                        m1,
                        account as int,
                        AccountStateView { conn_state: ConnectionStateView::Syncing, ..a },
                    )
                },
                effects: cache_part + seq![
                    Effect::FetchMessages { account: account, mailbox_hash: f.mailbox_hash },
                ],
            }
        } else {
            Outcome { model: m1, effects: cache_part }
        }
    } else {
        unchanged(m1)
    }
}

/// The offset of the page after the one at `offset`; it stops at the largest offset.
pub open spec fn next_offset(offset: u32) -> u32 {
    if offset + DEFAULT_PAGE_SIZE <= u32::MAX {
        (offset + DEFAULT_PAGE_SIZE) as u32
    } else {
        u32::MAX
    }
}

/// The user asks for more messages: the next page is read from the cache, and nothing
/// is asked of the server.
pub open spec fn step_load_more(m: AppModelView) -> Outcome {
    let offset = next_offset(m.messages_offset);
    let m1 = AppModelView { messages_offset: offset, ..m };
    match (m.has_cache, active_mailbox(m)) {
        (true, Some(mailbox)) => Outcome {
            model: m1,
            effects: seq![
                Effect::CacheLoadMessages {
                    account: m.active_account->0,
                    mailbox_hash: mailbox,
                    limit: DEFAULT_PAGE_SIZE,
                    offset: offset,
                },
            ],
        },
        _ => unchanged(m1),
    }
}

/// The requests that fetch the folders of every account with a session, in the order of
/// the accounts.
pub open spec fn refresh_effects(accounts: Seq<AccountStateView>) -> Seq<Effect>
    decreases accounts.len(),
{
    if accounts.len() == 0 {
        Seq::empty()
    } else {
        let rest = refresh_effects(accounts.drop_last());
        if accounts.last().has_session {
            rest.push(Effect::FetchFolders { account: (accounts.len() - 1) as usize })
        } else {
            rest
        }
    }
}

/// A refresh of all connected accounts, asked for by the user, by the timer or by the
/// server.
pub open spec fn step_refresh(m: AppModelView) -> Outcome {
    let effects = refresh_effects(m.accounts);
    if effects.len() > 0 {
        Outcome { model: AppModelView { status_message: "Refreshing..."@, ..m }, effects: effects }
    } else {
        unchanged(m)
    }
}

/// The account at `idx` is connected anew, unless it is connecting or synchronising
/// already.
pub open spec fn reconnect_at(m: AppModelView, idx: int) -> Outcome {
    let a = m.accounts[idx];
    if a.conn_state is Connecting || a.conn_state is Syncing {
        unchanged(m)
    } else {
        Outcome {
            model: AppModelView {
                status_message: a.config.label + ": Reconnecting..."@,
                ..set_account(
                    m,
                    idx,
                    AccountStateView {
                        has_session: false,
                        conn_state: ConnectionStateView::Connecting,
                        ..a
                    },
                )
            },
            effects: seq![Effect::Connect { account: idx as usize }],
        }
    }
}

/// A lost connection is tried again. A request for an unknown account is passed over.
pub open spec fn step_force_reconnect(m: AppModelView, account_id: Seq<char>) -> Outcome {
    match first_match(m.accounts, has_account_id(account_id)) {
        None => unchanged(m),
        Some(idx) => reconnect_at(m, idx),
    }
}

} // verus!
