use crate::accounts::step_setup_cancel;
use crate::actions::{
    step_archive, step_drag_to_folder, step_flag_done, step_move_done, step_toggle, step_trash,
    unchanged, Outcome,
};
use crate::body::{
    step_attachment_saved, step_body_deferred, step_body_failed, step_body_loaded, step_copy_body,
    step_save_attachment, step_view_body, texts_view,
};
use crate::effects::{Effect, FlagKind, PendingOp};
use crate::model::{AppModel, AppModelView};
use crate::models::{AttachmentData, Folder, MessageSummary};
use crate::navigation::{
    step_activate_selection, step_selection_down, step_selection_up, step_toggle_thread_collapse,
};
use crate::search::{
    step_search_activate, step_search_clear, step_search_execute, step_search_query_changed,
    step_search_results_loaded,
};
use crate::seqs::view_all;
use crate::sync::{
    step_account_connected, step_cached_folders_loaded, step_cached_messages_loaded,
    step_force_reconnect, step_load_more, step_refresh, step_select_folder,
    step_sync_folders_complete, step_sync_messages_complete,
};
use crate::sync_exec::{folders_result_view, messages_result_view};
use crate::text::result_text_view;
use crate::watch::{step_watch, ImapWatchEvent};
use vstd::prelude::*;

verus! {

/// The panes of the main window.
#[derive(Clone, Copy, Debug, PartialEq, Eq, Structural)]
pub enum PaneKind {
    Sidebar,
    MessageList,
    MessageView,
}

/// `Result::clone` of the standard library, which the derived copies of the events
/// call. It copies the value or the error that the result holds; nothing is claimed of
/// the copy.
pub assume_specification<T: Clone, E: Clone>[ <Result<T, E> as Clone>::clone ](
    r: &Result<T, E>,
) -> (res: Result<T, E>)
;

/// An event that the state machine takes: an action of the user, or the answer to an
/// effect.
#[derive(Debug, Clone)]
pub enum Message {
    AccountConnected { account_id: String, result: Result<(), String> },
    SelectFolder(usize, usize),
    ViewBody(usize),
    BodyDeferred,
    BodyLoaded(Result<(String, String, Vec<AttachmentData>), String>),
    LinkClicked,
    CopyBody,
    SaveAttachment(usize),
    SaveAttachmentComplete(Result<String, String>),
    CachedFoldersLoaded { account_id: String, result: Result<Vec<Folder>, String> },
    CachedMessagesLoaded(Result<Vec<MessageSummary>, String>),
    SyncFoldersComplete { account_id: String, result: Result<Vec<Folder>, String> },
    SyncMessagesComplete(Result<(), String>),
    LoadMoreMessages,
    ToggleRead(usize),
    ToggleStar(usize),
    Trash(usize),
    Archive(usize),
    FlagOpComplete { envelope_hash: u64, op: PendingOp, prev_flags: u8, result: Result<u8, String> },
    MoveOpComplete { envelope_hash: u64, result: Result<(), String> },
    SelectionUp,
    SelectionDown,
    ActivateSelection,
    ToggleThreadCollapse,
    ImapEvent(String, ImapWatchEvent),
    SearchActivate,
    SearchQueryChanged(String),
    SearchExecute,
    SearchResultsLoaded(Result<Vec<MessageSummary>, String>),
    SearchClear,
    DragMessageToFolder { envelope_hash: u64, source_mailbox: u64, dest_mailbox: u64 },
    FolderDragEnter(usize),
    FolderDragLeave,
    AutoMarkRead(u64),
    ForceReconnect(String),
    Refresh,
    SetupCancel,
    Noop,
}

/// What an event leads to.
pub open spec fn step_update(m: AppModelView, message: Message) -> Outcome {
    match message {
        Message::AccountConnected { account_id, result } => step_account_connected(
            m,
            account_id@,
            result_text_view(result),
        ),
        Message::SelectFolder(account, folder) => step_select_folder(m, account, folder),
        Message::ViewBody(index) => step_view_body(m, index),
        Message::BodyDeferred => step_body_deferred(m),
        Message::BodyLoaded(result) => match result {
            Ok(body) => step_body_loaded(m, body.0@, body.1@, view_all(body.2@)),
            Err(e) => step_body_failed(m, e@),
        },
        Message::LinkClicked => Outcome { model: m, effects: seq![Effect::OpenLink] },
        Message::CopyBody => step_copy_body(m),
        Message::SaveAttachment(index) => step_save_attachment(m, index),
        Message::SaveAttachmentComplete(result) => step_attachment_saved(m, texts_view(result)),
        Message::CachedFoldersLoaded { account_id, result } => step_cached_folders_loaded(
            m,
            account_id@,
            folders_result_view(result),
        ),
        Message::CachedMessagesLoaded(result) => step_cached_messages_loaded(
            m,
            messages_result_view(result),
        ),
        Message::SyncFoldersComplete { account_id, result } => step_sync_folders_complete(
            m,
            account_id@,
            folders_result_view(result),
        ),
        Message::SyncMessagesComplete(result) => step_sync_messages_complete(
            m,
            result_text_view(result),
        ),
        Message::LoadMoreMessages => step_load_more(m),
        Message::ToggleRead(index) => step_toggle(m, FlagKind::Seen, index),
        Message::ToggleStar(index) => step_toggle(m, FlagKind::Flagged, index),
        Message::Trash(index) => step_trash(m, index),
        Message::Archive(index) => step_archive(m, index),
        Message::FlagOpComplete { envelope_hash, op, prev_flags, result } => step_flag_done(
            m,
            envelope_hash,
            op,
            prev_flags,
            result_text_view(result),
        ),
        Message::MoveOpComplete { envelope_hash, result } => step_move_done(
            m,
            envelope_hash,
            result_text_view(result),
        ),
        Message::SelectionUp => step_selection_up(m),
        Message::SelectionDown => step_selection_down(m),
        Message::ActivateSelection => step_activate_selection(m),
        Message::ToggleThreadCollapse => step_toggle_thread_collapse(m),
        Message::ImapEvent(account_id, event) => step_watch(m, account_id@, event@),
        Message::SearchActivate => step_search_activate(m),
        Message::SearchQueryChanged(query) => step_search_query_changed(m, query@),
        Message::SearchExecute => step_search_execute(m),
        Message::SearchResultsLoaded(result) => step_search_results_loaded(
            m,
            messages_result_view(result),
        ),
        Message::SearchClear => step_search_clear(m),
        Message::DragMessageToFolder { envelope_hash, source_mailbox, dest_mailbox } => step_drag_to_folder(
            m,
            envelope_hash,
            source_mailbox,
            dest_mailbox,
        ),
        Message::FolderDragEnter(i) => unchanged(AppModelView { folder_drag_target: Some(i), ..m }),
        Message::FolderDragLeave => unchanged(AppModelView { folder_drag_target: None, ..m }),
        Message::AutoMarkRead(_) => unchanged(m),
        Message::ForceReconnect(account_id) => step_force_reconnect(m, account_id@),
        Message::Refresh => step_refresh(m),
        Message::SetupCancel => step_setup_cancel(m),
        Message::Noop => unchanged(m),
    }
}

impl AppModel {
    /// Takes one event: changes the state and hands out the work that is to be done
    /// outside. Each piece of that work ends in an event of its own.
    pub fn update(&mut self, message: Message) -> (effects: Vec<Effect>)
        ensures
            final(self)@ == step_update(old(self)@, message).model,
            effects@ == step_update(old(self)@, message).effects,
    {
        match message {
            Message::AccountConnected { account_id, result } => self.account_connected(
                account_id.as_str(),
                result,
            ),
            Message::SelectFolder(account, folder) => self.select_folder(account, folder),
            Message::ViewBody(index) => self.view_body(index),
            Message::BodyDeferred => self.body_deferred(),
            Message::BodyLoaded(result) => self.body_loaded(result),
            Message::LinkClicked => {
                let mut effects: Vec<Effect> = Vec::new();
                effects.push(Effect::OpenLink);
                assert(effects@ =~= seq![Effect::OpenLink]);
                effects
            },
            Message::CopyBody => self.copy_body(),
            Message::SaveAttachment(index) => self.save_attachment(index),
            Message::SaveAttachmentComplete(result) => self.save_attachment_complete(result),
            Message::CachedFoldersLoaded { account_id, result } => self.cached_folders_loaded(
                account_id.as_str(),
                result,
            ),
            Message::CachedMessagesLoaded(result) => self.cached_messages_loaded(result),
            Message::SyncFoldersComplete { account_id, result } => self.sync_folders_complete(
                account_id.as_str(),
                result,
            ),
            Message::SyncMessagesComplete(result) => self.sync_messages_complete(result),
            Message::LoadMoreMessages => self.load_more_messages(),
            Message::ToggleRead(index) => self.toggle_read(index),
            Message::ToggleStar(index) => self.toggle_star(index),
            Message::Trash(index) => self.trash(index),
            Message::Archive(index) => self.archive(index),
            Message::FlagOpComplete { envelope_hash, op, prev_flags, result } => self.flag_op_complete(
                envelope_hash,
                op,
                prev_flags,
                result,
            ),
            Message::MoveOpComplete { envelope_hash, result } => self.move_op_complete(
                envelope_hash,
                result,
            ),
            Message::SelectionUp => self.selection_up(),
            Message::SelectionDown => self.selection_down(),
            Message::ActivateSelection => self.activate_selection(),
            Message::ToggleThreadCollapse => self.toggle_thread_collapse(),
            Message::ImapEvent(account_id, event) => self.handle_watch(account_id.as_str(), event),
            Message::SearchActivate => self.search_activate(),
            Message::SearchQueryChanged(query) => self.search_query_changed(query),
            Message::SearchExecute => self.search_execute(),
            Message::SearchResultsLoaded(result) => self.search_results_loaded(result),
            Message::SearchClear => self.search_clear(),
            Message::DragMessageToFolder { envelope_hash, source_mailbox, dest_mailbox } => self.drag_message_to_folder(
                envelope_hash,
                source_mailbox,
                dest_mailbox,
            ),
            Message::FolderDragEnter(i) => {
                self.folder_drag_target = Some(i);
                Vec::new()
            },
            Message::FolderDragLeave => {
                self.folder_drag_target = None;
                Vec::new()
            },
            Message::AutoMarkRead(_) => Vec::new(),
            Message::ForceReconnect(account_id) => self.force_reconnect(account_id.as_str()),
            Message::Refresh => self.refresh(),
            Message::SetupCancel => self.setup_cancel(),
            Message::Noop => Vec::new(),
        }
    }
}

} // verus!
