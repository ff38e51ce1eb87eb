use nevermail::commands::{CacheCmd, CacheReply};
use nevermail::flags::{flags_from_u8, flags_to_u8, FlagState};
use nevermail::models::{AttachmentData, Folder, MessageSummary};
use nevermail::store::CacheStore;
use nevermail::store_folders::CacheError;

fn msg(id: u64, mailbox: u64, subject: &str, timestamp: i64) -> MessageSummary {
    MessageSummary {
        account_id: "acct".to_string(),
        uid: id,
        subject: subject.to_string(),
        from: "alice@example.com".to_string(),
        date: "Mon, 1 Jan 2024".to_string(),
        is_read: false,
        is_starred: false,
        has_attachments: false,
        thread_id: None,
        envelope_hash: id,
        timestamp,
        mailbox_hash: mailbox,
        message_id: format!("<{id}@example.com>"),
        in_reply_to: None,
        thread_depth: 0,
    }
}

fn threaded(id: u64, thread: u64, depth: u32, timestamp: i64) -> MessageSummary {
    let mut m = msg(id, 1, "thread", timestamp);
    m.thread_id = Some(thread);
    m.thread_depth = depth;
    m
}

fn folder(path: &str, mailbox: u64) -> Folder {
    Folder {
        name: path.to_string(),
        path: path.to_string(),
        unread_count: 0,
        total_count: 0,
        mailbox_hash: mailbox,
    }
}

fn ids(page: &[MessageSummary]) -> Vec<u64> {
    page.iter().map(|m| m.envelope_hash).collect()
}

#[test]
fn flags_encode_two_bits() {
    assert_eq!(flags_to_u8(false, false), 0);
    assert_eq!(flags_to_u8(true, false), 1);
    assert_eq!(flags_to_u8(false, true), 2);
    assert_eq!(flags_to_u8(true, true), 3);
    assert_eq!(flags_from_u8(0), (false, false));
    assert_eq!(flags_from_u8(1), (true, false));
    assert_eq!(flags_from_u8(2), (false, true));
    assert_eq!(flags_from_u8(3), (true, true));
    assert_eq!(flags_from_u8(0xFC), (false, false));
    assert_eq!(flags_from_u8(0xFD), (true, false));
}

#[test]
fn fresh_rows_have_equal_flags_and_nothing_pending() {
    let mut store = CacheStore::new();
    let mut m = msg(1, 1, "Hello", 10);
    m.is_read = true;
    store.save_messages("acct", 1, vec![m]);
    let rows = store.message_rows();
    assert_eq!(rows.len(), 1);
    assert_eq!(rows[0].flags_server, 1);
    assert_eq!(rows[0].flags_local, 1);
    assert!(rows[0].pending_op.is_none());
    assert!(rows[0].body_plain.is_none());
}

#[test]
fn flag_invariant_holds_after_every_operation() {
    let mut store = CacheStore::new();
    store.save_messages("acct", 1, vec![msg(1, 1, "a", 1), msg(2, 1, "b", 2), msg(3, 1, "c", 3)]);
    store.update_flags(1, 3, "set_flagged".to_string());
    store.update_flags(2, 1, "set_seen".to_string());
    store.clear_pending_op(1, 2);
    store.revert_pending_op(2);
    store.update_flags(3, 1, "move:9".to_string());
    store.save_messages("acct", 1, vec![msg(1, 1, "a", 1), msg(3, 1, "c2", 3)]);
    store.remove_message(1);
    for row in store.message_rows() {
        if row.pending_op.is_none() {
            assert_eq!(row.flags_local, row.flags_server);
        }
    }
    let rows = store.message_rows();
    assert_eq!(rows.len(), 1);
    assert_eq!(rows[0].envelope_hash, 3);
    assert_eq!(rows[0].pending_op.as_deref(), Some("move:9"));
}

#[test]
fn update_flags_is_last_writer_wins() {
    let mut store = CacheStore::new();
    store.save_messages("acct", 1, vec![msg(1, 1, "a", 1)]);
    store.update_flags(1, 1, "set_seen".to_string());
    store.update_flags(1, 3, "set_flagged".to_string());
    let rows = store.message_rows();
    assert_eq!(rows[0].flags_local, 3);
    assert_eq!(rows[0].flags_server, 0);
    assert_eq!(rows[0].pending_op.as_deref(), Some("set_flagged"));
    let page = store.load_messages("acct", 1, 50, 0);
    assert!(page[0].is_read && page[0].is_starred);
    store.update_flags(99, 1, "set_seen".to_string());
    assert_eq!(store.message_rows().len(), 1);
}

#[test]
fn clear_pending_op_takes_confirmed_flags() {
    let mut store = CacheStore::new();
    store.save_messages("acct", 1, vec![msg(1, 1, "a", 1)]);
    store.update_flags(1, 3, "set_flagged".to_string());
    store.clear_pending_op(1, 1);
    let rows = store.message_rows();
    assert_eq!(rows[0].flags_server, 1);
    assert_eq!(rows[0].flags_local, 1);
    assert!(rows[0].pending_op.is_none());
    let page = store.load_messages("acct", 1, 50, 0);
    assert!(page[0].is_read && !page[0].is_starred);
}

#[test]
fn revert_pending_op_restores_server_flags() {
    let mut store = CacheStore::new();
    let mut m = msg(1, 1, "a", 1);
    m.is_starred = true;
    store.save_messages("acct", 1, vec![m]);
    store.update_flags(1, 1, "set_seen".to_string());
    store.revert_pending_op(1);
    let rows = store.message_rows();
    assert_eq!(rows[0].flags_server, 2);
    assert_eq!(rows[0].flags_local, 2);
    assert!(rows[0].pending_op.is_none());
}

#[test]
fn resync_preserves_pending_rows() {
    let mut store = CacheStore::new();
    store.save_messages("acct", 1, vec![msg(1, 1, "old subject", 1), msg(2, 1, "other", 2)]);
    store.update_flags(1, 3, "set_flagged".to_string());
    store.save_body(1, "md".to_string(), "plain".to_string(), vec![]);

    let mut fresh = msg(1, 1, "new subject", 5);
    fresh.is_read = true;
    fresh.from = "bob@example.com".to_string();
    fresh.date = "Tue, 2 Jan 2024".to_string();
    store.save_messages("acct", 1, vec![fresh, msg(3, 1, "third", 3)]);

    let rows = store.message_rows();
    let row = rows.iter().find(|r| r.envelope_hash == 1).unwrap();
    assert_eq!(row.flags_local, 3);
    assert_eq!(row.pending_op.as_deref(), Some("set_flagged"));
    assert_eq!(row.flags_server, 1);
    assert_eq!(row.subject, "new subject");
    assert_eq!(row.sender, "bob@example.com");
    assert_eq!(row.date, "Tue, 2 Jan 2024");
    assert_eq!(row.timestamp, 5);
    assert_eq!(row.body_plain.as_deref(), Some("plain"));
    assert!(rows.iter().all(|r| r.envelope_hash != 2));
    assert!(rows.iter().any(|r| r.envelope_hash == 3));
    let page = store.load_messages("acct", 1, 50, 0);
    let shown = page.iter().find(|m| m.envelope_hash == 1).unwrap();
    assert!(shown.is_read && shown.is_starred);
}

#[test]
fn resync_keeps_pending_row_that_server_no_longer_lists() {
    let mut store = CacheStore::new();
    store.save_messages("acct", 1, vec![msg(1, 1, "moving", 1), msg(2, 1, "plain", 2)]);
    store.update_flags(1, 1, "move:7".to_string());
    store.save_messages("acct", 1, vec![]);
    let rows = store.message_rows();
    assert_eq!(rows.len(), 1);
    assert_eq!(rows[0].envelope_hash, 1);
    assert_eq!(rows[0].pending_op.as_deref(), Some("move:7"));
    assert_eq!(rows[0].subject, "moving");
}

#[test]
fn resync_drops_bodies_of_replaced_rows_and_ignores_taken_ids() {
    let mut store = CacheStore::new();
    store.save_messages("acct", 1, vec![msg(1, 1, "a", 1)]);
    store.save_messages("acct", 2, vec![msg(5, 2, "elsewhere", 1)]);
    store.save_body(1, "md".to_string(), "plain".to_string(), vec![]);
    assert!(store.load_body(1).is_some());
    store.save_messages("acct", 1, vec![msg(1, 1, "a", 1), msg(5, 1, "dup of other mailbox", 9), msg(1, 1, "twice", 2)]);
    assert!(store.load_body(1).is_none());
    let rows = store.message_rows();
    assert_eq!(rows.len(), 2);
    let other = rows.iter().find(|r| r.envelope_hash == 5).unwrap();
    assert_eq!(other.mailbox_hash, 2);
    assert_eq!(other.subject, "elsewhere");
    let first = rows.iter().find(|r| r.envelope_hash == 1).unwrap();
    assert_eq!(first.subject, "a");
}

#[test]
fn resync_of_one_mailbox_leaves_others_alone() {
    let mut store = CacheStore::new();
    store.save_messages("acct", 1, vec![msg(1, 1, "a", 1)]);
    store.save_messages("acct", 2, vec![msg(2, 2, "b", 1)]);
    store.save_messages("other", 1, vec![msg(3, 1, "c", 1)]);
    store.save_messages("acct", 1, vec![]);
    assert_eq!(store.message_count("acct", 1), 0);
    assert_eq!(store.message_count("acct", 2), 1);
    assert_eq!(store.message_count("other", 1), 1);
}

#[test]
fn pagination_pages_concatenate_and_are_disjoint() {
    let mut store = CacheStore::new();
    let mut all = Vec::new();
    for i in 0..120u64 {
        all.push(msg(i + 1, 1, "m", (i as i64 * 37) % 101));
    }
    store.save_messages("acct", 1, all);
    let first = store.load_messages("acct", 1, 50, 0);
    let second = store.load_messages("acct", 1, 50, 50);
    let both = store.load_messages("acct", 1, 100, 0);
    assert_eq!(first.len(), 50);
    assert_eq!(second.len(), 50);
    let mut joined = ids(&first);
    joined.extend(ids(&second));
    assert_eq!(joined, ids(&both));
    for a in &first {
        assert!(second.iter().all(|b| b.envelope_hash != a.envelope_hash));
    }
    let third = store.load_messages("acct", 1, 50, 100);
    assert_eq!(third.len(), 20);
    assert!(store.load_messages("acct", 1, 50, 120).is_empty());
    assert!(store.load_messages("acct", 1, 50, u32::MAX).is_empty());
    assert!(store.load_messages("acct", 1, 0, 0).is_empty());
    assert_eq!(store.load_messages("acct", 1, u32::MAX, 0).len(), 120);
    for w in both.windows(2) {
        assert!(w[0].timestamp > w[1].timestamp
            || (w[0].timestamp == w[1].timestamp && w[0].envelope_hash < w[1].envelope_hash));
    }
}

#[test]
fn threads_are_contiguous_and_newest_thread_first() {
    let mut store = CacheStore::new();
    store.save_messages(
        "acct",
        1,
        vec![
            threaded(2, 7, 1, 200),
            msg(4, 1, "single", 250),
            threaded(1, 7, 0, 100),
            threaded(3, 7, 1, 300),
        ],
    );
    let page = store.load_messages("acct", 1, 50, 0);
    assert_eq!(ids(&page), vec![1, 2, 3, 4]);
    assert_eq!(page[0].thread_depth, 0);
    assert_eq!(page[0].thread_id, Some(7));

    let mut store = CacheStore::new();
    store.save_messages(
        "acct",
        1,
        vec![threaded(2, 7, 1, 200), msg(4, 1, "single", 400), threaded(1, 7, 0, 100), threaded(3, 7, 1, 300)],
    );
    let page = store.load_messages("acct", 1, 50, 0);
    assert_eq!(ids(&page), vec![4, 1, 2, 3]);
}

#[test]
fn root_stands_before_replies_even_when_it_is_younger() {
    let mut store = CacheStore::new();
    store.save_messages("acct", 1, vec![threaded(2, 7, 1, 100), threaded(1, 7, 0, 300)]);
    let page = store.load_messages("acct", 1, 50, 0);
    assert_eq!(ids(&page), vec![1, 2]);

    let mut store = CacheStore::new();
    store.save_messages(
        "acct",
        1,
        vec![
            threaded(5, 7, 2, 50),
            threaded(4, 7, 1, 60),
            msg(9, 1, "single", 200),
            threaded(3, 7, 0, 500),
            threaded(6, 7, 1, 60),
            threaded(8, 8, 1, 10),
            threaded(7, 8, 0, 20),
        ],
    );
    let page = store.load_messages("acct", 1, 50, 0);
    assert_eq!(ids(&page), vec![3, 5, 4, 6, 9, 7, 8]);
}

#[test]
fn resync_takes_first_of_repeated_fresh_and_last_of_repeated_pending() {
    let mut store = CacheStore::new();
    store.save_messages("acct", 1, vec![msg(1, 1, "pending", 1)]);
    store.update_flags(1, 1, "set_seen".to_string());
    store.save_messages(
        "acct",
        1,
        vec![
            msg(2, 1, "fresh first", 10),
            msg(1, 1, "pending first", 11),
            msg(2, 1, "fresh second", 12),
            msg(1, 1, "pending second", 13),
        ],
    );
    let rows = store.message_rows();
    let fresh = rows.iter().find(|r| r.envelope_hash == 2).unwrap();
    assert_eq!(fresh.subject, "fresh first");
    assert_eq!(fresh.timestamp, 10);
    let pending = rows.iter().find(|r| r.envelope_hash == 1).unwrap();
    assert_eq!(pending.subject, "pending second");
    assert_eq!(pending.timestamp, 13);
    assert_eq!(pending.pending_op.as_deref(), Some("set_seen"));
    assert_eq!(rows.len(), 2);
}

#[test]
fn threads_of_equal_time_are_told_apart_by_signed_key() {
    let mut store = CacheStore::new();
    store.save_messages("acct", 1, vec![msg(5, 1, "a", 10), msg(u64::MAX, 1, "b", 10), msg(3, 1, "c", 10)]);
    let page = store.load_messages("acct", 1, 50, 0);
    assert_eq!(ids(&page), vec![u64::MAX, 3, 5]);
}

#[test]
fn search_round_trip() {
    let mut store = CacheStore::new();
    store.save_messages("acct", 1, vec![msg(1, 1, "Quarterly Report", 10), msg(2, 1, "Lunch", 20)]);
    let found = store.search("acct", "quarterly", &vec![1]);
    assert_eq!(ids(&found), vec![1]);
    assert_eq!(found[0].subject, "Quarterly Report");
    store.remove_message(1);
    assert!(store.search("acct", "quarterly", &vec![1]).is_empty());
    assert!(store.search_hits("acct", &vec![1, 2]).iter().all(|m| m.envelope_hash != 1));
}

#[test]
fn search_orders_newest_first_caps_and_scopes() {
    let mut store = CacheStore::new();
    let mut all = Vec::new();
    for i in 0..250u64 {
        all.push(msg(i + 1, 1, "hit", i as i64));
    }
    store.save_messages("acct", 1, all);
    store.save_messages("other", 1, vec![msg(1000, 1, "hit", 5000)]);
    let hits: Vec<u64> = (1..=250).chain(std::iter::once(1000)).collect();
    let found = store.search("acct", "  hit  ", &hits);
    assert_eq!(found.len(), 200);
    assert_eq!(found[0].envelope_hash, 250);
    assert_eq!(found[199].envelope_hash, 51);
    assert!(store.search("acct", "   ", &hits).is_empty());
    assert!(store.search("acct", "", &hits).is_empty());
    assert_eq!(ids(&store.search("other", "hit", &hits)), vec![1000]);
    assert!(store.search("acct", "hit", &vec![]).is_empty());
}

#[test]
fn folders_load_inbox_first_then_by_path() {
    let mut store = CacheStore::new();
    let saved = store.save_folders(
        "acct",
        vec![folder("Sent", 3), folder("Archive", 2), folder("INBOX", 1), folder("INBOX.Trash", 4), folder("Drafts", 5)],
    );
    assert_eq!(saved, Ok(()));
    let paths: Vec<String> = store.load_folders("acct").into_iter().map(|f| f.path).collect();
    assert_eq!(paths, vec!["INBOX", "Archive", "Drafts", "INBOX.Trash", "Sent"]);
    assert!(store.load_folders("nobody").is_empty());
}

#[test]
fn save_folders_replaces_the_set_of_one_account() {
    let mut store = CacheStore::new();
    store.save_folders("a", vec![folder("INBOX", 1), folder("Old", 2)]).unwrap();
    store.save_folders("b", vec![folder("INBOX", 1)]).unwrap();
    store.save_folders("a", vec![folder("New", 3)]).unwrap();
    let a: Vec<String> = store.load_folders("a").into_iter().map(|f| f.path).collect();
    assert_eq!(a, vec!["New"]);
    assert_eq!(store.load_folders("b").len(), 1);
}

#[test]
fn save_folders_refuses_clashes_and_changes_nothing() {
    let mut store = CacheStore::new();
    store.save_folders("a", vec![folder("INBOX", 1)]).unwrap();
    let same_path = store.save_folders("a", vec![folder("X", 5), folder("X", 6)]);
    assert_eq!(same_path, Err(CacheError::FolderClash));
    let same_mailbox = store.save_folders("a", vec![folder("X", 5), folder("Y", 5)]);
    assert_eq!(same_mailbox, Err(CacheError::FolderClash));
    let paths: Vec<String> = store.load_folders("a").into_iter().map(|f| f.path).collect();
    assert_eq!(paths, vec!["INBOX"]);
    assert!(CacheError::FolderClash.message().starts_with("Cache insert error"));
}

#[test]
fn bodies_are_cached_with_attachments_in_order() {
    let mut store = CacheStore::new();
    store.save_messages("acct", 1, vec![msg(1, 1, "a", 1)]);
    assert!(store.load_body(1).is_none());
    assert!(store.load_body(2).is_none());
    let att = |name: &str| AttachmentData {
        filename: name.to_string(),
        mime_type: "text/plain".to_string(),
        data: name.as_bytes().to_vec(),
    };
    store.save_body(1, "**md**".to_string(), "plain".to_string(), vec![att("one"), att("two")]);
    let body = store.load_body(1).unwrap();
    assert_eq!(body.markdown, "**md**");
    assert_eq!(body.plain, "plain");
    let names: Vec<&str> = body.attachments.iter().map(|a| a.filename.as_str()).collect();
    assert_eq!(names, vec!["one", "two"]);
    store.save_body(1, "m2".to_string(), "p2".to_string(), vec![att("three")]);
    let body = store.load_body(1).unwrap();
    assert_eq!(body.attachments.len(), 1);
    assert_eq!(body.attachments[0].data, b"three".to_vec());
    store.save_body(9, "x".to_string(), "y".to_string(), vec![att("orphan")]);
    assert!(store.load_body(9).is_none());
    store.remove_message(1);
    assert!(store.load_body(1).is_none());
}

#[test]
fn remove_account_removes_all_of_it() {
    let mut store = CacheStore::new();
    store.save_folders("a", vec![folder("INBOX", 1)]).unwrap();
    store.save_folders("b", vec![folder("INBOX", 1)]).unwrap();
    store.save_messages("a", 1, vec![msg(1, 1, "a", 1)]);
    store.save_messages("b", 1, vec![msg(2, 1, "b", 1)]);
    store.remove_account("a");
    assert!(store.load_folders("a").is_empty());
    assert_eq!(store.message_count("a", 1), 0);
    assert_eq!(store.load_folders("b").len(), 1);
    assert_eq!(store.message_count("b", 1), 1);
}

#[test]
fn commands_are_executed_one_by_one() {
    let mut store = CacheStore::new();
    let reply = store.execute(CacheCmd::SaveMessages {
        account: "acct".to_string(),
        mailbox_hash: 1,
        messages: vec![msg(1, 1, "a", 1), msg(2, 1, "b", 2)],
    });
    assert!(matches!(reply, CacheReply::Done));
    let reply = store.execute(CacheCmd::UpdateFlags {
        envelope_hash: 1,
        flags_local: 1,
        pending_op: "set_seen".to_string(),
    });
    assert!(matches!(reply, CacheReply::Done));
    match store.execute(CacheCmd::LoadMessages {
        account: "acct".to_string(),
        mailbox_hash: 1,
        limit: 50,
        offset: 0,
    }) {
        CacheReply::Messages(page) => {
            assert_eq!(ids(&page), vec![2, 1]);
            assert!(page[1].is_read);
        }
        _ => panic!("expected messages"),
    }
    match store.execute(CacheCmd::MessageCount { account: "acct".to_string(), mailbox_hash: 1 }) {
        CacheReply::Count(n) => assert_eq!(n, 2),
        _ => panic!("expected a count"),
    }
    match store.execute(CacheCmd::SaveFolders {
        account: "acct".to_string(),
        folders: vec![folder("A", 1), folder("A", 2)],
    }) {
        CacheReply::Failed(e) => assert_eq!(e, CacheError::FolderClash),
        _ => panic!("expected a failure"),
    }
    match store.execute(CacheCmd::LoadBody { envelope_hash: 1 }) {
        CacheReply::Body(b) => assert!(b.is_none()),
        _ => panic!("expected a body"),
    }
    assert!(matches!(store.execute(CacheCmd::RemoveMessage { envelope_hash: 1 }), CacheReply::Done));
    match store.execute(CacheCmd::Search {
        account: "acct".to_string(),
        query: "b".to_string(),
        hits: vec![1, 2],
    }) {
        CacheReply::Messages(found) => assert_eq!(ids(&found), vec![2]),
        _ => panic!("expected messages"),
    }
}

#[test]
fn restore_gives_back_what_was_written() {
    let mut store = CacheStore::new();
    store.save_folders("a", vec![folder("INBOX", 1), folder("Sent", 2)]).unwrap();
    store.save_messages("a", 1, vec![msg(1, 1, "a", 1), msg(2, 1, "b", 2)]);
    store.update_flags(2, 3, "set_flagged".to_string());
    let restored = CacheStore::restore(store.folder_rows(), store.message_rows());
    assert_eq!(ids(&restored.load_messages("a", 1, 50, 0)), ids(&store.load_messages("a", 1, 50, 0)));
    assert_eq!(restored.load_folders("a").len(), 2);
    let rows = restored.message_rows();
    assert_eq!(rows[1].pending_op.as_deref(), Some("set_flagged"));

    let mut broken = store.message_rows();
    broken[0].flags_local = 3;
    let dup = broken[1].clone();
    broken.push(dup);
    let repaired = CacheStore::restore(Vec::new(), broken);
    let rows = repaired.message_rows();
    assert_eq!(rows.len(), 2);
    assert_eq!(rows[0].flags_local, rows[0].flags_server);
}

#[test]
fn flag_state_follows_the_reconciliation() {
    let mut store = CacheStore::new();
    store.save_messages("acct", 1, vec![msg(1, 1, "a", 1)]);
    assert!(store.flag_state(2).is_none());
    assert!(matches!(store.flag_state(1), Some(FlagState::Synced)));
    store.update_flags(1, 1, "set_seen".to_string());
    match store.flag_state(1) {
        Some(FlagState::Pending { intended, tag }) => {
            assert_eq!(intended, 1);
            assert_eq!(tag, "set_seen");
        }
        _ => panic!("expected a pending operation"),
    }
    store.clear_pending_op(1, 1);
    assert!(matches!(store.flag_state(1), Some(FlagState::Synced)));
    store.update_flags(1, 0, "unset_seen".to_string());
    store.revert_pending_op(1);
    assert!(matches!(store.flag_state(1), Some(FlagState::Synced)));
    assert_eq!(store.message_rows()[0].flags_local, 1);
}
