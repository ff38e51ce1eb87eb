use nevermail::effects::{Effect, FlagKind, PendingOp};
use nevermail::model::{AccountConfig, AccountState, AppModel, SmtpOverrides};
use nevermail::models::{ConnectionState, Folder, MessageSummary};
use nevermail::store::CacheStore;
use nevermail::update::Message;

fn summary(id: u64, mailbox: u64) -> MessageSummary {
    MessageSummary {
        account_id: "work".to_string(),
        uid: id,
        subject: format!("subject {id}"),
        from: "alice@example.com".to_string(),
        date: "Mon, 1 Jan 2024".to_string(),
        is_read: false,
        is_starred: false,
        has_attachments: false,
        thread_id: None,
        envelope_hash: id,
        timestamp: id as i64,
        mailbox_hash: mailbox,
        message_id: format!("<{id}@example.com>"),
        in_reply_to: None,
        thread_depth: 0,
    }
}

fn folder(path: &str, mailbox: u64) -> Folder {
    Folder {
        name: path.to_string(),
        path: path.to_string(),
        unread_count: 0,
        total_count: 0,
        mailbox_hash: mailbox,
    }
}

fn account(id: &str, folders: Vec<Folder>, has_session: bool) -> AccountState {
    let mut a = AccountState::new(AccountConfig {
        id: id.to_string(),
        label: id.to_string(),
        imap_server: "mail.example.com".to_string(),
        imap_port: 993,
        username: "user".to_string(),
        password: "secret".to_string(),
        use_starttls: false,
        email_addresses: vec!["user@example.com".to_string()],
        smtp_overrides: SmtpOverrides::none(),
    });
    a.folders = folders;
    a.has_session = has_session;
    a.conn_state = ConnectionState::Connected;
    a
}

fn model_with(folders: Vec<Folder>, count: u64) -> AppModel {
    let mut m = AppModel::new(true);
    m.accounts.push(account("work", folders, true));
    m.active_account = Some(0);
    m.selected_folder = Some(0);
    m.messages = (1..=count).map(|i| summary(i, 1)).collect();
    m.recompute_visible();
    m
}

fn hashes(m: &AppModel) -> Vec<u64> {
    m.messages.iter().map(|x| x.envelope_hash).collect()
}

fn apply(store: &mut CacheStore, effects: &[Effect]) {
    for e in effects {
        match *e {
            Effect::CacheUpdateFlags { envelope_hash, flags, op } => {
                store.update_flags(envelope_hash, flags, op.tag())
            }
            Effect::CacheConfirmPendingOp { envelope_hash, op, flags } => {
                store.confirm_pending_op(envelope_hash, &op.tag(), flags)
            }
            Effect::CacheClearPendingOp { envelope_hash, flags } => {
                store.clear_pending_op(envelope_hash, flags)
            }
            Effect::CacheRevertPendingOp { envelope_hash } => store.revert_pending_op(envelope_hash),
            Effect::CacheRemoveMessage { envelope_hash } => store.remove_message(envelope_hash),
            _ => {}
        }
    }
}

#[test]
fn pending_op_tags() {
    assert_eq!(PendingOp::SetSeen.tag(), "set_seen");
    assert_eq!(PendingOp::UnsetSeen.tag(), "unset_seen");
    assert_eq!(PendingOp::SetFlagged.tag(), "set_flagged");
    assert_eq!(PendingOp::UnsetFlagged.tag(), "unset_flagged");
    assert_eq!(PendingOp::Move(0).tag(), "move:0");
    assert_eq!(PendingOp::Move(u64::MAX).tag(), "move:18446744073709551615");
    assert_eq!(PendingOp::for_toggle(FlagKind::Seen, true), PendingOp::SetSeen);
    assert_eq!(PendingOp::for_toggle(FlagKind::Flagged, false), PendingOp::UnsetFlagged);
}

#[test]
fn toggle_read_is_optimistic_and_asks_cache_and_server() {
    let mut m = model_with(vec![folder("INBOX", 1)], 3);
    let effects = m.toggle_read(1);
    assert!(m.messages[1].is_read);
    assert_eq!(
        effects,
        vec![
            Effect::CacheUpdateFlags { envelope_hash: 2, flags: 1, op: PendingOp::SetSeen },
            Effect::SetFlags {
                account: 0,
                envelope_hash: 2,
                mailbox_hash: 1,
                flag: FlagKind::Seen,
                set: true,
                prev_flags: 0,
                new_flags: 1,
            },
        ]
    );
    let effects = m.toggle_read(1);
    assert!(!m.messages[1].is_read);
    assert_eq!(
        effects[0],
        Effect::CacheUpdateFlags { envelope_hash: 2, flags: 0, op: PendingOp::UnsetSeen }
    );
    assert!(m.toggle_read(3).is_empty());
}

#[test]
fn toggle_without_account_for_mailbox_reports_and_asks_nothing() {
    let mut m = model_with(vec![folder("INBOX", 1)], 1);
    m.messages[0].mailbox_hash = 77;
    let effects = m.toggle_star(0);
    assert!(effects.is_empty());
    assert!(m.messages[0].is_starred);
    assert_eq!(m.status_message, "Cannot update cache flags: no account for mailbox 77");
}

#[test]
fn toggle_without_cache_or_session() {
    let mut m = model_with(vec![folder("INBOX", 1)], 1);
    m.has_cache = false;
    m.accounts[0].has_session = false;
    assert!(m.toggle_read(0).is_empty());
    assert!(m.messages[0].is_read);
}

#[test]
fn failed_flag_op_restores_exact_prior_flags() {
    let mut m = model_with(vec![folder("INBOX", 1)], 2);
    m.messages[0].is_starred = true;
    let first = m.toggle_read(0);
    let prev_first = match first[1] {
        Effect::SetFlags { prev_flags, .. } => prev_flags,
        _ => panic!("expected a flag request"),
    };
    assert_eq!(prev_first, 2);
    let second = m.toggle_read(0);
    let prev_second = match second[1] {
        Effect::SetFlags { prev_flags, .. } => prev_flags,
        _ => panic!("expected a flag request"),
    };
    assert_eq!(prev_second, 3);
    assert!(!m.messages[0].is_read);
    let effects = m.flag_op_complete(1, PendingOp::SetSeen, prev_first, Err("timeout".to_string()));
    assert_eq!(effects, vec![Effect::CacheRevertPendingOp { envelope_hash: 1 }]);
    assert!(!m.messages[0].is_read);
    assert!(m.messages[0].is_starred);
    assert_eq!(m.status_message, "Flag update failed: timeout");
    m.flag_op_complete(1, PendingOp::UnsetSeen, prev_second, Err("timeout".to_string()));
    assert!(m.messages[0].is_read);
    assert!(m.messages[0].is_starred);
}

#[test]
fn read_then_star_shows_both_whatever_the_order_of_confirmations() {
    for read_first in [true, false] {
        let mut store = CacheStore::new();
        store.save_messages("work", 1, vec![summary(1, 1)]);
        let mut m = model_with(vec![folder("INBOX", 1)], 1);
        let read = m.toggle_read(0);
        apply(&mut store, &read);
        let star = m.toggle_star(0);
        apply(&mut store, &star);
        let (read_flags, star_flags) = match (read[1], star[1]) {
            (Effect::SetFlags { new_flags: a, .. }, Effect::SetFlags { new_flags: b, .. }) => (a, b),
            _ => panic!("expected flag requests"),
        };
        assert_eq!(read_flags, 0x01);
        assert_eq!(star_flags, 0x03);
        let shown = store.load_messages("work", 1, 50, 0);
        assert!(shown[0].is_read && shown[0].is_starred);

        let read_done = Message::FlagOpComplete {
            envelope_hash: 1,
            op: PendingOp::SetSeen,
            prev_flags: 0,
            result: Ok(0x01),
        };
        let star_done = Message::FlagOpComplete {
            envelope_hash: 1,
            op: PendingOp::SetFlagged,
            prev_flags: 1,
            result: Ok(0x03),
        };
        let (first, second) = if read_first { (read_done, star_done) } else { (star_done, read_done) };
        let effects = m.update(first);
        apply(&mut store, &effects);
        let shown = store.load_messages("work", 1, 50, 0);
        assert!(shown[0].is_read && shown[0].is_starred);
        let effects = m.update(second);
        apply(&mut store, &effects);

        assert!(m.messages[0].is_read);
        assert!(m.messages[0].is_starred);
        let rows = store.message_rows();
        assert_eq!(rows[0].flags_server, 3);
        assert_eq!(rows[0].flags_local, 3);
        assert!(rows[0].pending_op.is_none());
        let shown = store.load_messages("work", 1, 50, 0);
        assert!(shown[0].is_read && shown[0].is_starred);
    }
}

#[test]
fn late_confirmation_overwrites_nothing() {
    let mut store = CacheStore::new();
    store.save_messages("work", 1, vec![summary(1, 1)]);
    store.confirm_pending_op(1, "set_seen", 1);
    assert_eq!(store.message_rows()[0].flags_server, 0);
    store.update_flags(1, 2, "set_flagged".to_string());
    store.confirm_pending_op(1, "set_seen", 1);
    let rows = store.message_rows();
    assert_eq!(rows[0].flags_server, 1);
    assert_eq!(rows[0].flags_local, 2);
    assert_eq!(rows[0].pending_op.as_deref(), Some("set_flagged"));
    store.confirm_pending_op(1, "set_flagged", 3);
    let rows = store.message_rows();
    assert_eq!((rows[0].flags_server, rows[0].flags_local), (3, 3));
    assert!(rows[0].pending_op.is_none());
    store.confirm_pending_op(9, "set_seen", 1);
    assert_eq!(store.message_rows().len(), 1);
}

#[test]
fn trash_without_trash_folder_changes_nothing() {
    let mut store = CacheStore::new();
    store.save_messages("work", 1, (1..=3).map(|i| summary(i, 1)).collect());
    let before_rows = store.message_rows().len();
    let mut m = model_with(vec![folder("INBOX", 1), folder("Sent", 2)], 3);
    m.selected_message = Some(1);
    let effects = m.update(Message::Trash(1));
    apply(&mut store, &effects);
    assert!(effects.is_empty());
    assert_eq!(hashes(&m), vec![1, 2, 3]);
    assert_eq!(m.selected_message, Some(1));
    assert!(m.pending_move_restore.is_empty());
    assert_eq!(m.status_message, "Trash folder not found");
    assert_eq!(store.message_rows().len(), before_rows);
    assert!(store.message_rows().iter().all(|r| r.pending_op.is_none()));
    let effects = m.archive(0);
    assert!(effects.is_empty());
    assert_eq!(m.status_message, "Archive folder not found");
}

#[test]
fn trash_moves_optimistically() {
    let mut m = model_with(vec![folder("INBOX", 1), folder("INBOX.Trash", 9)], 4);
    m.selected_message = Some(3);
    let effects = m.trash(1);
    assert_eq!(hashes(&m), vec![1, 3, 4]);
    assert_eq!(m.selected_message, Some(2));
    assert_eq!(m.visible_indices, vec![0, 1, 2]);
    assert_eq!(m.pending_move_restore.len(), 1);
    assert_eq!(m.pending_move_restore[0].position, 1);
    assert_eq!(
        effects,
        vec![
            Effect::CacheUpdateFlags { envelope_hash: 2, flags: 1, op: PendingOp::Move(9) },
            Effect::MoveMessage { account: 0, envelope_hash: 2, source_mailbox: 1, dest_mailbox: 9 },
        ]
    );
}

#[test]
fn trash_prefers_trash_over_inbox_trash() {
    let mut m = model_with(vec![folder("INBOX", 1), folder("INBOX.Trash", 9), folder("Trash", 8)], 1);
    let effects = m.trash(0);
    assert!(effects.contains(&Effect::MoveMessage {
        account: 0,
        envelope_hash: 1,
        source_mailbox: 1,
        dest_mailbox: 8
    }));
}

#[test]
fn removing_the_selected_message_clears_selection_and_preview() {
    let mut m = model_with(vec![folder("INBOX", 1), folder("Archive", 5)], 3);
    m.selected_message = Some(1);
    m.preview_body = "body".to_string();
    m.preview_markdown = "body".to_string();
    m.archive(1);
    assert_eq!(m.selected_message, None);
    assert!(m.preview_body.is_empty());
    assert!(m.preview_markdown.is_empty());
}

#[test]
fn optimistic_removal_hands_out_the_message_or_nothing() {
    let mut m = model_with(vec![folder("INBOX", 1)], 3);
    m.selected_message = Some(2);
    assert!(m.remove_message_optimistic(3).is_none());
    assert!(m.remove_message_optimistic(usize::MAX).is_none());
    assert_eq!(hashes(&m), vec![1, 2, 3]);
    assert_eq!(m.selected_message, Some(2));
    let removed = m.remove_message_optimistic(0).unwrap();
    assert_eq!(removed.envelope_hash, 1);
    assert_eq!(removed.subject, "subject 1");
    assert_eq!(hashes(&m), vec![2, 3]);
    assert_eq!(m.selected_message, Some(1));
    assert_eq!(m.visible_indices, vec![0, 1]);
    let removed = m.remove_message_optimistic(0).unwrap();
    assert_eq!(removed.envelope_hash, 2);
    assert_eq!(m.selected_message, Some(0));
}

#[test]
fn successful_move_removes_from_list_and_cache() {
    let mut store = CacheStore::new();
    store.save_messages("work", 1, (1..=3).map(|i| summary(i, 1)).collect());
    let mut m = model_with(vec![folder("INBOX", 1), folder("Trash", 9)], 3);
    let effects = m.trash(0);
    apply(&mut store, &effects);
    assert_eq!(store.message_rows()[0].pending_op.as_deref(), Some("move:9"));
    let effects = m.move_op_complete(1, Ok(()));
    assert_eq!(effects, vec![Effect::CacheRemoveMessage { envelope_hash: 1 }]);
    apply(&mut store, &effects);
    assert_eq!(hashes(&m), vec![2, 3]);
    assert!(m.pending_move_restore.is_empty());
    let page = store.load_messages("work", 1, 50, 0);
    assert!(page.iter().all(|x| x.envelope_hash != 1));
    assert_eq!(page.len(), 2);
}

#[test]
fn failed_move_restores_at_former_position() {
    let mut m = model_with(vec![folder("INBOX", 1), folder("Trash", 9)], 4);
    let before = m.messages[2].clone();
    m.trash(2);
    assert_eq!(hashes(&m), vec![1, 2, 4]);
    let effects = m.move_op_complete(3, Err("server said no".to_string()));
    assert!(effects.is_empty());
    assert_eq!(hashes(&m), vec![1, 2, 3, 4]);
    assert_eq!(m.selected_message, Some(2));
    assert_eq!(m.messages[2].subject, before.subject);
    assert_eq!(m.messages[2].message_id, before.message_id);
    assert_eq!(m.messages[2].timestamp, before.timestamp);
    assert_eq!(m.status_message, "Move failed: server said no");
    assert!(m.pending_move_restore.is_empty());
    assert_eq!(m.visible_indices, vec![0, 1, 2, 3]);
}

#[test]
fn failed_move_restores_at_end_when_list_got_shorter() {
    let mut m = model_with(vec![folder("INBOX", 1), folder("Trash", 9)], 4);
    m.trash(3);
    m.messages.truncate(1);
    m.move_op_complete(4, Err("no".to_string()));
    assert_eq!(hashes(&m), vec![1, 4]);
    assert_eq!(m.selected_message, Some(1));
}

#[test]
fn move_result_for_unknown_message() {
    let mut m = model_with(vec![folder("INBOX", 1)], 2);
    let effects = m.move_op_complete(42, Ok(()));
    assert!(effects.is_empty());
    assert_eq!(m.status_message, "Cannot remove moved message from cache: missing account for 42");
    m.move_op_complete(42, Err("x".to_string()));
    assert_eq!(hashes(&m), vec![1, 2]);
    assert_eq!(m.status_message, "Move failed: x");
}

#[test]
fn drag_to_folder_rules() {
    let mut m = model_with(vec![folder("INBOX", 1), folder("Work", 2)], 3);
    m.accounts.push(account("home", vec![folder("INBOX", 10)], true));
    m.folder_drag_target = Some(1);
    assert!(m.drag_message_to_folder(2, 1, 1).is_empty());
    assert_eq!(m.folder_drag_target, None);
    assert_eq!(hashes(&m), vec![1, 2, 3]);

    assert!(m.drag_message_to_folder(2, 1, 10).is_empty());
    assert_eq!(m.status_message, "Cannot move messages between accounts");
    assert_eq!(hashes(&m), vec![1, 2, 3]);
    assert!(m.pending_move_restore.is_empty());

    let effects = m.drag_message_to_folder(2, 1, 2);
    assert_eq!(hashes(&m), vec![1, 3]);
    assert_eq!(
        effects,
        vec![
            Effect::CacheUpdateFlags { envelope_hash: 2, flags: 1, op: PendingOp::Move(2) },
            Effect::MoveMessage { account: 0, envelope_hash: 2, source_mailbox: 1, dest_mailbox: 2 },
        ]
    );
    assert!(m.drag_message_to_folder(99, 1, 2).is_empty());
    m.update(Message::FolderDragEnter(4));
    assert_eq!(m.folder_drag_target, Some(4));
    m.update(Message::FolderDragLeave);
    assert_eq!(m.folder_drag_target, None);
}

#[test]
fn confirmed_flag_op_clears_pending_in_cache() {
    let mut m = model_with(vec![folder("INBOX", 1)], 1);
    let effects = m.flag_op_complete(1, PendingOp::SetSeen, 0, Ok(1));
    assert_eq!(
        effects,
        vec![Effect::CacheConfirmPendingOp { envelope_hash: 1, op: PendingOp::SetSeen, flags: 1 }]
    );
    let effects = m.flag_op_complete(5, PendingOp::SetSeen, 0, Ok(1));
    assert!(effects.is_empty());
    assert_eq!(m.status_message, "Cannot clear cache pending op: no account for message 5");
    let effects = m.flag_op_complete(5, PendingOp::SetSeen, 0, Err("e".to_string()));
    assert!(effects.is_empty());
    assert_eq!(m.status_message, "Cannot revert cache pending op: no account for message 5");
}
