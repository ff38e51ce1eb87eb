use crate::actions::{
    pending_put, remove_optimistic, start_move, step_drag_to_folder, step_move_done,
    step_move_to_named,
};
use crate::model::{moves_other, AppModelView, PendingMoveView};
use crate::navigation::{other_thread, step_toggle_thread_collapse};
use crate::seqs::{
    keep, keys_distinct, lemma_keep_keys_distinct, lemma_keep_members, lemma_push_keys_distinct,
};
use crate::update::{step_update, Message};
use vstd::prelude::*;

verus! {

/// The key of a kept message: the id of the message.
pub open spec fn moved_id() -> spec_fn(PendingMoveView) -> u64 {
    |p: PendingMoveView| p.envelope_hash
}

/// The key of a collapsed thread: the thread itself.
pub open spec fn thread_itself() -> spec_fn(u64) -> u64 {
    |t: u64| t
}

/// Whether the table of kept messages holds at most one entry for each message.
pub open spec fn pending_distinct(table: Seq<PendingMoveView>) -> bool {
    keys_distinct(table, moved_id())
}

/// Whether no thread is listed twice as collapsed.
pub open spec fn threads_distinct(collapsed: Seq<u64>) -> bool {
    keys_distinct(collapsed, thread_itself())
}

/// Whether the two tables of the state are what a map and a set would be: the kept
/// messages have one entry for each message id at most, and no thread is collapsed twice.
pub open spec fn tables_valid(m: AppModelView) -> bool {
    pending_distinct(m.pending_move_restore) && threads_distinct(m.collapsed_threads)
}

/// Putting an entry into the table of kept messages leaves one entry for each message.
pub proof fn lemma_pending_put_keeps(table: Seq<PendingMoveView>, e: PendingMoveView)
    requires
        pending_distinct(table),
    ensures
        pending_distinct(pending_put(table, e)),
{
    let q = moves_other(e.envelope_hash);
    lemma_keep_keys_distinct(table, q, moved_id());
    lemma_keep_members(table, q);
    let kept = keep(table, q);
    assert forall|i: int| 0 <= i < kept.len() implies moved_id()(#[trigger] kept[i]) != moved_id()(
        e,
    ) by {
        assert(q(kept[i]));
    }
    lemma_push_keys_distinct(kept, e, moved_id());
}

/// Taking the entries of a message out of the table of kept messages leaves one entry
/// for each other message.
pub proof fn lemma_take_pending_keeps(table: Seq<PendingMoveView>, envelope_hash: u64)
    requires
        pending_distinct(table),
    ensures
        pending_distinct(keep(table, moves_other(envelope_hash))),
{
    lemma_keep_keys_distinct(table, moves_other(envelope_hash), moved_id());
}

/// Starting a move keeps the tables valid.
pub proof fn lemma_start_move_keeps(m: AppModelView, index: usize, source: u64, dest: u64)
    requires
        tables_valid(m),
    ensures
        tables_valid(start_move(m, index, source, dest).model),
{
    let msg = m.messages[index as int];
    let m1 = remove_optimistic(m, index);
    assert(m1.pending_move_restore == m.pending_move_restore);
    assert(m1.collapsed_threads == m.collapsed_threads);
    lemma_pending_put_keeps(
        m1.pending_move_restore,
        PendingMoveView { envelope_hash: msg.envelope_hash, message: msg, position: index },
    );
}

/// A move to a well-known folder keeps the tables valid.
pub proof fn lemma_move_to_named_keeps(
    m: AppModelView,
    index: usize,
    first: Seq<char>,
    second: Seq<char>,
    missing: Seq<char>,
)
    requires
        tables_valid(m),
    ensures
        tables_valid(step_move_to_named(m, index, first, second, missing).model),
{
    if index < m.messages.len() {
        let msg = m.messages[index as int];
        match crate::actions::account_of(m, msg.mailbox_hash) {
            Some(a) => match crate::actions::named_folder(m.accounts[a].folders, first, second) {
                Some(dest) => {
                    lemma_start_move_keeps(m, index, msg.mailbox_hash, dest);
                },
                None => {},
            },
            None => {},
        }
    }
}

/// A drop of a message on a folder keeps the tables valid.
pub proof fn lemma_drag_keeps(m: AppModelView, envelope_hash: u64, source: u64, dest: u64)
    requires
        tables_valid(m),
    ensures
        tables_valid(step_drag_to_folder(m, envelope_hash, source, dest).model),
{
    let m0 = AppModelView { folder_drag_target: None, ..m };
    match crate::seqs::first_match(m.messages, crate::model::has_hash(envelope_hash)) {
        Some(i) => {
            lemma_start_move_keeps(m0, i as usize, source, dest);
        },
        None => {},
    }
}

/// The answer to a move request keeps the tables valid.
pub proof fn lemma_move_done_keeps(m: AppModelView, envelope_hash: u64, result: Result<(), Seq<char>>)
    requires
        tables_valid(m),
    ensures
        tables_valid(step_move_done(m, envelope_hash, result).model),
{
    lemma_take_pending_keeps(m.pending_move_restore, envelope_hash);
}

/// Collapsing or opening a thread keeps the tables valid: a thread is added to the
/// collapsed ones only when it is not among them.
pub proof fn lemma_toggle_collapse_keeps(m: AppModelView)
    requires
        tables_valid(m),
    ensures
        tables_valid(step_toggle_thread_collapse(m).model),
{
    match m.selected_message {
        Some(index) => {
            if index < m.messages.len() {
                match m.messages[index as int].thread_id {
                    Some(tid) => {
                        if m.collapsed_threads.contains(tid) {
                            lemma_keep_keys_distinct(
                                m.collapsed_threads,
                                other_thread(tid),
                                thread_itself(),
                            );
                        } else {
                            assert forall|i: int| 0 <= i < m.collapsed_threads.len() implies thread_itself()(
                                #[trigger] m.collapsed_threads[i],
                            ) != thread_itself()(tid) by {
                                assert(m.collapsed_threads.contains(m.collapsed_threads[i]));
                            }
                            lemma_push_keys_distinct(m.collapsed_threads, tid, thread_itself());
                        }
                    },
                    None => {},
                }
            }
        },
        None => {},
    }
}

/// The state at start has valid tables.
pub proof fn lemma_initial_tables_valid(has_cache: bool)
    ensures
        tables_valid(crate::model::initial_model(has_cache)),
{
}

/// The steps of moving keep the tables valid.
pub proof fn lemma_moves_keep(m: AppModelView, message: Message)
    requires
        tables_valid(m),
        message is Trash || message is Archive || message is DragMessageToFolder
            || message is MoveOpComplete,
    ensures
        tables_valid(step_update(m, message).model),
{
    match message {
        Message::Trash(index) => {
            lemma_move_to_named_keeps(
                m,
                index,
                "Trash"@,
                "INBOX.Trash"@,
                "Trash folder not found"@,
            );
        },
        Message::Archive(index) => {
            lemma_move_to_named_keeps(
                m,
                index,
                "Archive"@,
                "INBOX.Archive"@,
                "Archive folder not found"@,
            );
        },
        Message::DragMessageToFolder { envelope_hash, source_mailbox, dest_mailbox } => {
            lemma_drag_keeps(m, envelope_hash, source_mailbox, dest_mailbox);
        },
        Message::MoveOpComplete { envelope_hash, result } => {
            lemma_move_done_keeps(m, envelope_hash, crate::text::result_text_view(result));
        },
        _ => {},
    }
}

/// The steps of synchronisation keep the tables valid.
pub proof fn lemma_sync_keeps(m: AppModelView, message: Message)
    requires
        tables_valid(m),
        message is AccountConnected || message is SyncFoldersComplete
            || message is SyncMessagesComplete || message is CachedFoldersLoaded
            || message is CachedMessagesLoaded || message is SelectFolder
            || message is LoadMoreMessages || message is Refresh || message is ForceReconnect,
    ensures
        tables_valid(step_update(m, message).model),
{
    assert(threads_distinct(Seq::<u64>::empty()));
}

/// The steps of the flags keep the tables valid.
pub proof fn lemma_flags_keep(m: AppModelView, message: Message)
    requires
        tables_valid(m),
        message is ToggleRead || message is ToggleStar || message is FlagOpComplete,
    ensures
        tables_valid(step_update(m, message).model),
{
}

/// The steps of the preview keep the tables valid.
pub proof fn lemma_body_keeps(m: AppModelView, message: Message)
    requires
        tables_valid(m),
        message is ViewBody || message is BodyDeferred || message is BodyLoaded
            || message is LinkClicked || message is CopyBody || message is SaveAttachment
            || message is SaveAttachmentComplete,
    ensures
        tables_valid(step_update(m, message).model),
{
}

/// The steps of the selection keep the tables valid.
pub proof fn lemma_navigation_keeps(m: AppModelView, message: Message)
    requires
        tables_valid(m),
        message is SelectionUp || message is SelectionDown || message is ActivateSelection
            || message is ToggleThreadCollapse,
    ensures
        tables_valid(step_update(m, message).model),
{
    if message is ToggleThreadCollapse {
        lemma_toggle_collapse_keeps(m);
    }
}

/// The steps of the search keep the tables valid.
pub proof fn lemma_search_keeps(m: AppModelView, message: Message)
    requires
        tables_valid(m),
        message is SearchActivate || message is SearchQueryChanged || message is SearchExecute
            || message is SearchResultsLoaded || message is SearchClear,
    ensures
        tables_valid(step_update(m, message).model),
{
    assert(threads_distinct(Seq::<u64>::empty()));
    if message is SearchClear && m.search_active {
        let m1 = AppModelView {
            search_active: false,
            search_focused: false,
            search_query: Seq::empty(),
            ..m
        };
        match (m.active_account, m.selected_folder) {
            (Some(a), Some(f)) => {
                lemma_sync_keeps(m1, Message::SelectFolder(a, f));
            },
            _ => {},
        }
    }
}

/// The events that the server pushes keep the tables valid.
pub proof fn lemma_watch_keeps(
    m: AppModelView,
    account_id: Seq<char>,
    event: crate::watch::ImapWatchEventView,
)
    requires
        tables_valid(m),
    ensures
        tables_valid(crate::watch::step_watch(m, account_id, event).model),
{
}

/// The remaining steps keep the tables valid.
pub proof fn lemma_rest_keeps(m: AppModelView, message: Message)
    requires
        tables_valid(m),
        message is FolderDragEnter || message is FolderDragLeave || message is AutoMarkRead
            || message is SetupCancel || message is Noop || message is ImapEvent,
    ensures
        tables_valid(step_update(m, message).model),
{
    match message {
        Message::ImapEvent(account_id, event) => {
            lemma_watch_keeps(m, account_id@, event@);
        },
        _ => {},
    }
}

/// Every step keeps the tables valid: whatever the event, the state after it has at most
/// one kept message for each message id and no thread collapsed twice, given that the
/// state before it had.
pub proof fn lemma_update_keeps_tables(m: AppModelView, message: Message)
    requires
        tables_valid(m),
    ensures
        tables_valid(step_update(m, message).model),
{
    if message is Trash || message is Archive || message is DragMessageToFolder
        || message is MoveOpComplete {
        lemma_moves_keep(m, message);
    } else if message is AccountConnected || message is SyncFoldersComplete
        || message is SyncMessagesComplete || message is CachedFoldersLoaded
        || message is CachedMessagesLoaded || message is SelectFolder
        || message is LoadMoreMessages || message is Refresh || message is ForceReconnect {
        lemma_sync_keeps(m, message);
    } else if message is ToggleRead || message is ToggleStar || message is FlagOpComplete {
        lemma_flags_keep(m, message);
    } else if message is ViewBody || message is BodyDeferred || message is BodyLoaded
        || message is LinkClicked || message is CopyBody || message is SaveAttachment
        || message is SaveAttachmentComplete {
        lemma_body_keeps(m, message);
    } else if message is SelectionUp || message is SelectionDown || message is ActivateSelection
        || message is ToggleThreadCollapse {
        lemma_navigation_keeps(m, message);
    } else if message is SearchActivate || message is SearchQueryChanged
        || message is SearchExecute || message is SearchResultsLoaded || message is SearchClear {
        lemma_search_keeps(m, message);
    } else {
        lemma_rest_keeps(m, message);
    }
}

} // verus!
