use nevermail::effects::{Effect, RECONNECT_DELAY_SECS};
use nevermail::model::{AccountConfig, AppModel, SmtpOverrides};
use nevermail::models::{AttachmentData, ConnectionState, Folder, MessageSummary};
use nevermail::paging::DEFAULT_PAGE_SIZE;
use nevermail::update::Message;
use nevermail::watch::{notification_summary, ImapWatchEvent};

fn note(id: u64, mailbox: u64) -> MessageSummary {
    MessageSummary {
        account_id: "work".to_string(),
        uid: id,
        subject: format!("subject {id}"),
        from: "alice@example.com".to_string(),
        date: "Mon, 1 Jan 2024".to_string(),
        is_read: false,
        is_starred: false,
        has_attachments: false,
        thread_id: None,
        envelope_hash: id,
        timestamp: id as i64,
        mailbox_hash: mailbox,
        message_id: format!("<{id}@example.com>"),
        in_reply_to: None,
        thread_depth: 0,
    }
}

fn reply_in(id: u64, thread: u64, depth: u32) -> MessageSummary {
    let mut m = note(id, 1);
    m.thread_id = Some(thread);
    m.thread_depth = depth;
    m
}

fn dir(path: &str, mailbox: u64) -> Folder {
    Folder {
        name: path.to_string(),
        path: path.to_string(),
        unread_count: 0,
        total_count: 0,
        mailbox_hash: mailbox,
    }
}

fn config(id: &str) -> AccountConfig {
    AccountConfig {
        id: id.to_string(),
        label: id.to_uppercase(),
        imap_server: "mail.example.com".to_string(),
        imap_port: 993,
        username: "user".to_string(),
        password: "secret".to_string(),
        use_starttls: false,
        email_addresses: vec!["user@example.com".to_string()],
        smtp_overrides: SmtpOverrides::none(),
    }
}

fn started(ids: &[&str]) -> AppModel {
    let (m, _) = AppModel::start(true, ids.iter().map(|i| config(i)).collect());
    m
}

fn viewing(count: u64) -> AppModel {
    let mut m = started(&["work"]);
    m.accounts[0].folders = vec![dir("INBOX", 1), dir("Sent", 2)];
    m.accounts[0].has_session = true;
    m.accounts[0].conn_state = ConnectionState::Connected;
    m.active_account = Some(0);
    m.selected_folder = Some(0);
    m.messages = (1..=count).map(|i| note(i, 1)).collect();
    m.recompute_visible();
    m
}

#[test]
fn start_connects_every_account() {
    let (m, effects) = AppModel::start(true, vec![config("work"), config("home")]);
    assert_eq!(m.accounts.len(), 2);
    assert_eq!(m.accounts[0].config.id, "work");
    assert_eq!(m.accounts[1].config.id, "home");
    assert!(matches!(m.accounts[0].conn_state, ConnectionState::Connecting));
    assert_eq!(m.status_message, "Starting up...");
    assert_eq!(
        effects,
        vec![
            Effect::CacheLoadFolders { account: 0 },
            Effect::Connect { account: 0 },
            Effect::CacheLoadFolders { account: 1 },
            Effect::Connect { account: 1 },
        ]
    );
    let (_, effects) = AppModel::start(false, vec![config("work")]);
    assert_eq!(effects, vec![Effect::Connect { account: 0 }]);
    let (m, effects) = AppModel::start(true, vec![]);
    assert!(effects.is_empty());
    assert!(m.show_setup_dialog);
    assert_eq!(m.status_message, "Setup required \u{2014} enter your account details");
}

#[test]
fn cached_folders_select_inbox_and_load_first_page() {
    let mut m = started(&["work"]);
    let effects = m.update(Message::CachedFoldersLoaded {
        account_id: "work".to_string(),
        result: Ok(vec![dir("Sent", 2), dir("INBOX", 1)]),
    });
    assert_eq!(m.active_account, Some(0));
    assert_eq!(m.selected_folder, Some(1));
    assert_eq!(
        effects,
        vec![Effect::CacheLoadMessages { account: 0, mailbox_hash: 1, limit: 50, offset: 0 }]
    );
    let effects = m.update(Message::CachedFoldersLoaded {
        account_id: "work".to_string(),
        result: Ok(vec![dir("INBOX", 1)]),
    });
    assert!(effects.is_empty());
    assert_eq!(m.status_message, "1 folders (cached)");
    let before = m.accounts[0].folders.len();
    m.update(Message::CachedFoldersLoaded { account_id: "work".to_string(), result: Ok(vec![]) });
    m.update(Message::CachedFoldersLoaded {
        account_id: "work".to_string(),
        result: Err("broken".to_string()),
    });
    m.update(Message::CachedFoldersLoaded {
        account_id: "nobody".to_string(),
        result: Ok(vec![dir("X", 9)]),
    });
    assert_eq!(m.accounts[0].folders.len(), before);
}

#[test]
fn cached_messages_replace_or_extend() {
    let mut m = viewing(0);
    let page: Vec<MessageSummary> = (1..=50).map(|i| note(i, 1)).collect();
    m.update(Message::CachedMessagesLoaded(Ok(page)));
    assert_eq!(m.messages.len(), 50);
    assert!(m.has_more_messages);
    assert_eq!(m.status_message, "50 messages");
    assert_eq!(m.visible_indices.len(), 50);
    let effects = m.update(Message::LoadMoreMessages);
    assert_eq!(m.messages_offset, 50);
    assert_eq!(
        effects,
        vec![Effect::CacheLoadMessages { account: 0, mailbox_hash: 1, limit: 50, offset: 50 }]
    );
    m.update(Message::CachedMessagesLoaded(Ok((51..=60).map(|i| note(i, 1)).collect())));
    assert_eq!(m.messages.len(), 60);
    assert!(!m.has_more_messages);
    assert_eq!(m.status_message, "60 messages");
    m.update(Message::CachedMessagesLoaded(Err("x".to_string())));
    assert_eq!(m.messages.len(), 60);
}

#[test]
fn load_more_stops_at_largest_offset() {
    let mut m = viewing(0);
    m.messages_offset = u32::MAX - 10;
    m.update(Message::LoadMoreMessages);
    assert_eq!(m.messages_offset, u32::MAX);
    assert_eq!(DEFAULT_PAGE_SIZE, 50);
}

#[test]
fn connected_account_synchronises() {
    let mut m = started(&["work"]);
    let effects = m.update(Message::AccountConnected { account_id: "work".to_string(), result: Ok(()) });
    assert!(m.accounts[0].has_session);
    assert!(matches!(m.accounts[0].conn_state, ConnectionState::Syncing));
    assert_eq!(m.status_message, "WORK: Connected. Loading folders...");
    assert_eq!(effects, vec![Effect::FetchFolders { account: 0 }]);

    let mut m = viewing(2);
    m.accounts[0].has_session = false;
    m.has_cache = false;
    m.update(Message::ViewBody(1));
    assert_eq!(m.pending_body, Some(1));
    assert_eq!(m.status_message, "Connecting...");
    let effects = m.update(Message::AccountConnected { account_id: "work".to_string(), result: Ok(()) });
    assert_eq!(m.pending_body, None);
    assert_eq!(
        effects,
        vec![
            Effect::FetchFolders { account: 0 },
            Effect::LoadBody { envelope_hash: 2, use_cache: false, session_account: Some(0) },
        ]
    );
    assert_eq!(m.status_message, "Loading message...");
}

#[test]
fn failed_connection_without_cached_data_reprompts() {
    let mut m = started(&["work"]);
    let effects = m.update(Message::AccountConnected {
        account_id: "work".to_string(),
        result: Err("refused".to_string()),
    });
    assert!(effects.is_empty());
    assert!(matches!(&m.accounts[0].conn_state, ConnectionState::Error(e) if e == "refused"));
    assert!(m.show_setup_dialog);
    assert_eq!(m.setup_error.as_deref(), Some("Connection failed: refused"));
    assert_eq!(m.status_message, "WORK: Connection failed: refused");

    let mut m = viewing(0);
    m.update(Message::AccountConnected {
        account_id: "work".to_string(),
        result: Err("refused".to_string()),
    });
    assert!(!m.show_setup_dialog);
    assert_eq!(m.status_message, "WORK: 2 folders (offline \u{2014} refused)");
}

#[test]
fn synced_folders_fetch_messages_of_selected_folder() {
    let mut m = started(&["work"]);
    m.update(Message::AccountConnected { account_id: "work".to_string(), result: Ok(()) });
    let effects = m.update(Message::SyncFoldersComplete {
        account_id: "work".to_string(),
        result: Ok(vec![dir("Drafts", 3), dir("INBOX", 1)]),
    });
    assert!(matches!(m.accounts[0].conn_state, ConnectionState::Connected));
    assert_eq!(m.active_account, Some(0));
    assert_eq!(m.selected_folder, Some(1));
    assert_eq!(m.status_message, "WORK: 2 folders");
    assert_eq!(effects, vec![Effect::FetchMessages { account: 0, mailbox_hash: 1 }]);
    let effects = m.update(Message::SyncFoldersComplete {
        account_id: "work".to_string(),
        result: Err("down".to_string()),
    });
    assert!(effects.is_empty());
    assert_eq!(m.status_message, "WORK: 2 folders (sync failed: down)");
}

#[test]
fn synced_messages_reload_first_page_from_cache() {
    let mut m = viewing(3);
    m.messages_offset = 100;
    m.accounts[0].conn_state = ConnectionState::Syncing;
    let effects = m.update(Message::SyncMessagesComplete(Ok(())));
    assert!(matches!(m.accounts[0].conn_state, ConnectionState::Connected));
    assert_eq!(m.messages_offset, 0);
    assert_eq!(
        effects,
        vec![Effect::CacheLoadMessages { account: 0, mailbox_hash: 1, limit: 50, offset: 0 }]
    );
    m.has_cache = false;
    let effects = m.update(Message::SyncMessagesComplete(Ok(())));
    assert!(effects.is_empty());
    assert_eq!(m.status_message, "3 messages (synced)");
    m.update(Message::SyncMessagesComplete(Err("bad".to_string())));
    assert_eq!(m.status_message, "Sync failed: bad");
}

#[test]
fn select_folder_serves_cache_then_fetches() {
    let mut m = viewing(3);
    m.selected_message = Some(1);
    m.collapsed_threads = vec![7];
    let effects = m.update(Message::SelectFolder(0, 1));
    assert!(m.messages.is_empty());
    assert!(m.visible_indices.is_empty());
    assert!(m.collapsed_threads.is_empty());
    assert_eq!(m.selected_message, None);
    assert_eq!(m.selected_folder, Some(1));
    assert!(matches!(m.accounts[0].conn_state, ConnectionState::Syncing));
    assert_eq!(m.status_message, "Loading Sent...");
    assert_eq!(
        effects,
        vec![
            Effect::CacheLoadMessages { account: 0, mailbox_hash: 2, limit: 50, offset: 0 },
            Effect::FetchMessages { account: 0, mailbox_hash: 2 },
        ]
    );
    m.accounts[0].has_session = false;
    let effects = m.update(Message::SelectFolder(0, 0));
    assert_eq!(
        effects,
        vec![Effect::CacheLoadMessages { account: 0, mailbox_hash: 1, limit: 50, offset: 0 }]
    );
    assert!(m.update(Message::SelectFolder(0, 9)).is_empty());
    assert!(m.update(Message::SelectFolder(4, 0)).is_empty());
}

#[test]
fn refresh_fetches_folders_of_connected_accounts() {
    let mut m = started(&["a", "b", "c"]);
    assert!(m.update(Message::Refresh).is_empty());
    m.accounts[0].has_session = true;
    m.accounts[2].has_session = true;
    let effects = m.update(Message::Refresh);
    assert_eq!(
        effects,
        vec![Effect::FetchFolders { account: 0 }, Effect::FetchFolders { account: 2 }]
    );
    assert_eq!(m.status_message, "Refreshing...");
}

#[test]
fn force_reconnect_is_guarded() {
    let mut m = started(&["work"]);
    assert!(m.update(Message::ForceReconnect("work".to_string())).is_empty());
    m.accounts[0].conn_state = ConnectionState::Error("lost".to_string());
    m.accounts[0].has_session = true;
    let effects = m.update(Message::ForceReconnect("work".to_string()));
    assert_eq!(effects, vec![Effect::Connect { account: 0 }]);
    assert!(!m.accounts[0].has_session);
    assert!(matches!(m.accounts[0].conn_state, ConnectionState::Connecting));
    assert_eq!(m.status_message, "WORK: Reconnecting...");
    assert!(m.update(Message::ForceReconnect("nobody".to_string())).is_empty());
}

#[test]
fn watch_removes_message_from_shown_mailbox() {
    let mut m = viewing(3);
    m.selected_message = Some(2);
    m.preview_body = "body".to_string();
    let effects = m.update(Message::ImapEvent(
        "work".to_string(),
        ImapWatchEvent::MessageRemoved { mailbox_hash: 1, envelope_hash: 3 },
    ));
    assert_eq!(effects, vec![Effect::CacheRemoveMessage { envelope_hash: 3 }]);
    assert_eq!(m.messages.len(), 2);
    assert_eq!(m.selected_message, Some(1));
    assert!(m.preview_body.is_empty());
    let effects = m.update(Message::ImapEvent(
        "work".to_string(),
        ImapWatchEvent::MessageRemoved { mailbox_hash: 2, envelope_hash: 1 },
    ));
    assert_eq!(effects, vec![Effect::CacheRemoveMessage { envelope_hash: 1 }]);
    assert_eq!(m.messages.len(), 2);
    m.update(Message::ImapEvent(
        "work".to_string(),
        ImapWatchEvent::MessageRemoved { mailbox_hash: 1, envelope_hash: 1 },
    ));
    m.update(Message::ImapEvent(
        "work".to_string(),
        ImapWatchEvent::MessageRemoved { mailbox_hash: 1, envelope_hash: 2 },
    ));
    assert!(m.messages.is_empty());
    assert_eq!(m.selected_message, None);
}

#[test]
fn watch_flag_change_updates_list_and_cache() {
    let mut m = viewing(2);
    let effects = m.update(Message::ImapEvent(
        "work".to_string(),
        ImapWatchEvent::FlagsChanged { mailbox_hash: 1, envelope_hash: 2, flags: 3 },
    ));
    assert!(m.messages[1].is_read && m.messages[1].is_starred);
    assert_eq!(effects, vec![Effect::CacheClearPendingOp { envelope_hash: 2, flags: 3 }]);
    let effects = m.update(Message::ImapEvent(
        "home".to_string(),
        ImapWatchEvent::FlagsChanged { mailbox_hash: 1, envelope_hash: 1, flags: 1 },
    ));
    assert!(!m.messages[0].is_read);
    assert_eq!(effects, vec![Effect::CacheClearPendingOp { envelope_hash: 1, flags: 1 }]);
}

#[test]
fn watch_new_message_notifies_and_refreshes_when_shown() {
    let mut m = viewing(1);
    let event = |mailbox| ImapWatchEvent::NewMessage {
        mailbox_hash: mailbox,
        subject: "Hi".to_string(),
        from: "bob".to_string(),
    };
    let effects = m.update(Message::ImapEvent("work".to_string(), event(1)));
    assert_eq!(effects, vec![Effect::NotifyNewMessage, Effect::FetchFolders { account: 0 }]);
    let effects = m.update(Message::ImapEvent("work".to_string(), event(2)));
    assert_eq!(effects, vec![Effect::NotifyNewMessage]);
    assert_eq!(notification_summary("bob"), "From: bob");
    let effects = m.update(Message::ImapEvent("work".to_string(), ImapWatchEvent::Rescan));
    assert_eq!(effects, vec![Effect::FetchFolders { account: 0 }]);
}

#[test]
fn watch_loss_schedules_reconnect() {
    let mut m = viewing(1);
    let effects =
        m.update(Message::ImapEvent("work".to_string(), ImapWatchEvent::WatchError("eof".to_string())));
    assert_eq!(effects, vec![Effect::ReconnectLater { account: 0, delay_secs: 5 }]);
    assert_eq!(RECONNECT_DELAY_SECS, 5);
    assert!(!m.accounts[0].has_session);
    assert!(matches!(&m.accounts[0].conn_state, ConnectionState::Error(e) if e == "eof"));
    m.accounts[0].has_session = true;
    m.update(Message::ImapEvent("work".to_string(), ImapWatchEvent::WatchEnded));
    assert!(matches!(&m.accounts[0].conn_state, ConnectionState::Error(e) if e == "Connection lost"));
    assert!(m.update(Message::ImapEvent("x".to_string(), ImapWatchEvent::WatchEnded)).is_empty());
}

#[test]
fn body_loading_prefers_cache_and_defers_without_session() {
    let mut m = viewing(2);
    let effects = m.update(Message::ViewBody(0));
    assert_eq!(m.selected_message, Some(0));
    assert_eq!(
        effects,
        vec![Effect::LoadBody { envelope_hash: 1, use_cache: true, session_account: Some(0) }]
    );
    m.accounts[0].has_session = false;
    let effects = m.update(Message::ViewBody(1));
    assert_eq!(
        effects,
        vec![Effect::LoadBody { envelope_hash: 2, use_cache: true, session_account: None }]
    );
    m.update(Message::BodyDeferred);
    assert_eq!(m.pending_body, Some(1));
    let att = AttachmentData { filename: "a".into(), mime_type: "b".into(), data: vec![1] };
    m.update(Message::BodyLoaded(Ok(("md".to_string(), "plain".to_string(), vec![att]))));
    assert_eq!(m.preview_markdown, "md");
    assert_eq!(m.preview_body, "plain");
    assert_eq!(m.preview_attachments.len(), 1);
    assert_eq!(m.status_message, "Ready");
    assert_eq!(m.update(Message::CopyBody), vec![Effect::CopyBody]);
    assert_eq!(m.update(Message::SaveAttachment(0)), vec![Effect::SaveAttachment { index: 0 }]);
    assert!(m.update(Message::SaveAttachment(1)).is_empty());
    m.update(Message::SaveAttachmentComplete(Ok("/tmp/a".to_string())));
    assert_eq!(m.status_message, "Saved to /tmp/a");
    m.update(Message::SaveAttachmentComplete(Err("Save failed: x".to_string())));
    assert_eq!(m.status_message, "Save failed: x");
    m.update(Message::BodyLoaded(Err("gone".to_string())));
    assert_eq!(m.preview_body, "Failed to load message body: gone");
    assert_eq!(m.status_message, "Error loading message");
    m.accounts[0].conn_state = ConnectionState::Syncing;
    m.pending_body = None;
    m.update(Message::BodyLoaded(Err("gone".to_string())));
    assert_eq!(m.pending_body, Some(1));
    assert_eq!(m.status_message, "Syncing...");
    assert_eq!(m.update(Message::LinkClicked), vec![Effect::OpenLink]);
}

#[test]
fn navigation_moves_over_visible_rows() {
    let mut m = viewing(0);
    m.messages = vec![reply_in(1, 7, 0), reply_in(2, 7, 1), reply_in(3, 7, 1), note(4, 1)];
    m.recompute_visible();
    assert_eq!(m.thread_size(7), 3);
    m.update(Message::SelectionDown);
    assert_eq!(m.selected_message, Some(0));
    m.update(Message::SelectionDown);
    assert_eq!(m.selected_message, Some(1));
    m.update(Message::ToggleThreadCollapse);
    assert_eq!(m.collapsed_threads, vec![7]);
    assert_eq!(m.selected_message, Some(0));
    assert_eq!(m.visible_indices, vec![0, 3]);
    m.update(Message::SelectionDown);
    assert_eq!(m.selected_message, Some(3));
    m.update(Message::SelectionDown);
    assert_eq!(m.selected_message, Some(3));
    m.update(Message::ToggleThreadCollapse);
    assert_eq!(m.collapsed_threads, vec![7]);
    m.update(Message::SelectionUp);
    assert_eq!(m.selected_message, Some(0));
    m.update(Message::SelectionUp);
    assert_eq!(m.selected_message, Some(0));
    m.update(Message::ToggleThreadCollapse);
    assert!(m.collapsed_threads.is_empty());
    assert_eq!(m.visible_indices, vec![0, 1, 2, 3]);
    let effects = m.update(Message::ActivateSelection);
    assert_eq!(
        effects,
        vec![Effect::LoadBody { envelope_hash: 1, use_cache: true, session_account: Some(0) }]
    );
}

#[test]
fn search_flow() {
    let mut m = viewing(3);
    assert_eq!(m.update(Message::SearchActivate), vec![Effect::FocusSearch]);
    assert!(m.search_active && m.search_focused);
    assert!(m.update(Message::SearchActivate).is_empty());
    m.update(Message::SearchQueryChanged("   ".to_string()));
    assert!(m.update(Message::SearchExecute).is_empty());
    m.update(Message::SearchQueryChanged("  quarterly ".to_string()));
    assert_eq!(m.search_terms(), "quarterly");
    assert_eq!(m.update(Message::SearchExecute), vec![Effect::CacheSearch]);
    assert_eq!(m.status_message, "Searching...");
    m.update(Message::SearchResultsLoaded(Ok(vec![note(9, 1), note(8, 1)])));
    assert_eq!(m.messages.len(), 2);
    assert!(!m.search_focused);
    assert_eq!(m.status_message, "Search: 2 results for \"  quarterly \"");
    m.update(Message::SearchResultsLoaded(Ok(vec![])));
    assert_eq!(m.status_message, "Search: no results for \"  quarterly \"");
    m.update(Message::SearchResultsLoaded(Err("bad".to_string())));
    assert_eq!(m.status_message, "Search failed: bad");
    let effects = m.update(Message::SearchClear);
    assert!(!m.search_active);
    assert!(m.search_query.is_empty());
    assert_eq!(
        effects,
        vec![
            Effect::CacheLoadMessages { account: 0, mailbox_hash: 1, limit: 50, offset: 0 },
            Effect::FetchMessages { account: 0, mailbox_hash: 1 },
        ]
    );
    m.show_compose_dialog = true;
    m.update(Message::SearchClear);
    assert!(!m.show_compose_dialog);
}

#[test]
fn account_removal_keeps_active_account() {
    let mut m = started(&["a", "b", "c"]);
    m.active_account = Some(2);
    m.messages = vec![note(1, 1)];
    let removed = m.account_remove("a").unwrap();
    assert_eq!(removed.config.id, "a");
    assert_eq!(m.active_account, Some(1));
    assert_eq!(m.messages.len(), 1);
    assert_eq!(m.status_message, "Account removed");
    m.account_remove("c");
    assert_eq!(m.active_account, None);
    assert!(m.messages.is_empty());
    assert!(m.account_remove("zzz").is_none());
    m.toggle_account_collapse(0);
    assert!(m.accounts[0].collapsed);
    m.toggle_account_collapse(5);
    m.account_add();
    assert!(m.show_setup_dialog);
    m.update(Message::SetupCancel);
    assert!(!m.show_setup_dialog);
    assert_eq!(m.status_message, "0 folders (offline)");
}
