use crate::effects::{spec_toggle_op, Effect, FlagKind, PendingOp};
use crate::flags::{spec_flags_from_u8, spec_flags_to_u8};
use crate::model::{
    has_hash, moves_hash, moves_other, owns_mailbox, spec_folder_hash, spec_visible, AppModelView,
    PendingMoveView,
};
use crate::models::{FolderView, MessageSummaryView};
use crate::seqs::{first_match, keep};
use crate::text::{spec_decimal};
use vstd::prelude::*;
use vstd::string::*;

verus! {

/// What a step of the state machine gives: the next state, and the work to be done
/// outside.
pub struct Outcome {
    pub model: AppModelView,
    pub effects: Seq<Effect>,
}

/// A step that changes nothing and asks for nothing.
pub open spec fn unchanged(m: AppModelView) -> Outcome {
    Outcome { model: m, effects: Seq::empty() }
}

/// A step that only sets the status line.
pub open spec fn only_status(m: AppModelView, status: Seq<char>) -> Outcome {
    Outcome { model: AppModelView { status_message: status, ..m }, effects: Seq::empty() }
}

/// The place of the account that owns a mailbox.
pub open spec fn account_of(m: AppModelView, mailbox_hash: u64) -> Option<int> {
    first_match(m.accounts, owns_mailbox(mailbox_hash))
}

/// The place of the account that owns a mailbox, where that account has a session.
pub open spec fn session_of(m: AppModelView, mailbox_hash: u64) -> Option<int> {
    match account_of(m, mailbox_hash) {
        Some(a) => if m.accounts[a].has_session {
            Some(a)
        } else {
            None
        },
        None => None,
    }
}

/// The place of the account that owns the mailbox of a listed message.
pub open spec fn account_of_message(m: AppModelView, envelope_hash: u64) -> Option<int> {
    match first_match(m.messages, has_hash(envelope_hash)) {
        Some(i) => account_of(m, m.messages[i].mailbox_hash),
        None => None,
    }
}

/// The value of one flag of a message.
pub open spec fn flag_of(msg: MessageSummaryView, flag: FlagKind) -> bool {
    match flag {
        FlagKind::Seen => msg.is_read,
        FlagKind::Flagged => msg.is_starred,
    }
}

/// A message with one flag set to a value.
pub open spec fn with_flag(msg: MessageSummaryView, flag: FlagKind, value: bool) -> MessageSummaryView {
    match flag {
        FlagKind::Seen => MessageSummaryView { is_read: value, ..msg },
        FlagKind::Flagged => MessageSummaryView { is_starred: value, ..msg },
    }
}

/// The flag byte of a message as it is shown.
pub open spec fn shown_flags(msg: MessageSummaryView) -> u8 {
    spec_flags_to_u8(msg.is_read, msg.is_starred)
}

/// A toggle of one flag of the message at `index`. The list shows the new value at once.
/// With a cache, the intent is recorded there; with a session for the mailbox, the server
/// is asked. With a cache but no account for the mailbox, the toggle stays in the list
/// and nothing else happens but a status text.
pub open spec fn step_toggle(m: AppModelView, flag: FlagKind, index: usize) -> Outcome {
    if index >= m.messages.len() {
        unchanged(m)
    } else {
        let msg = m.messages[index as int];
        let set = !flag_of(msg, flag);
        let toggled = with_flag(msg, flag, set);
        let m1 = AppModelView { messages: m.messages.update(index as int, toggled), ..m };
        if m.has_cache && account_of(m, msg.mailbox_hash) is None {
            only_status(
                m1,
                "Cannot update cache flags: no account for mailbox "@ + spec_decimal(
                    msg.mailbox_hash as nat,
                ),
            )
        } else {
            let cache_part = if m.has_cache {
                seq![
                    Effect::CacheUpdateFlags {
                        envelope_hash: msg.envelope_hash,
                        flags: shown_flags(toggled),
                        op: spec_toggle_op(flag, set),
                    },
                ]
            } else {
                Seq::empty()
            };
            let session_part = match session_of(m, msg.mailbox_hash) {
                Some(a) => seq![
                    Effect::SetFlags {
                        account: a as usize,
                        envelope_hash: msg.envelope_hash,
                        mailbox_hash: msg.mailbox_hash,
                        flag: flag,
                        set: set,
                        prev_flags: shown_flags(msg),
                        new_flags: shown_flags(toggled),
                    },
                ],
                None => Seq::empty(),
            };
            Outcome { model: m1, effects: cache_part + session_part }
        }
    }
}

/// The state after the message at `index` was taken out of the list ahead of its move.
/// A selection behind it moves up by one; if the message itself was selected, selection
/// and preview are cleared. Where the list has no message at `index`, nothing changes.
pub open spec fn remove_optimistic(m: AppModelView, index: usize) -> AppModelView {
    if index >= m.messages.len() {
        m
    } else {
        let messages = m.messages.remove(index as int);
        let was_selected = m.selected_message == Some(index);
        AppModelView {
            messages: messages,
            selected_message: match m.selected_message {
                Some(sel) => if sel == index {
                    None
                } else if sel > index {
                    Some((sel - 1) as usize)
                } else {
                    Some(sel)
                },
                None => None,
            },
            preview_body: if was_selected {
                Seq::empty()
            } else {
                m.preview_body
            },
            preview_markdown: if was_selected {
                Seq::empty()
            } else {
                m.preview_markdown
            },
            preview_attachments: if was_selected {
                Seq::empty()
            } else {
                m.preview_attachments
            },
            visible_indices: spec_visible(messages, m.collapsed_threads),
            ..m
        }
    }
}

/// The table of pending moves with an entry put in; an older entry for the same message
/// goes.
pub open spec fn pending_put(table: Seq<PendingMoveView>, e: PendingMoveView) -> Seq<PendingMoveView> {
    keep(table, moves_other(e.envelope_hash)).push(e)
}

/// The flags that a message gets in the cache while its move is pending: seen, not starred.
pub open spec fn moved_flags() -> u8 {
    spec_flags_to_u8(true, false)
}

/// The requests that start a move. With a cache, the move is recorded there as pending;
/// with a session for the source mailbox, the server is asked. With a cache but no
/// account for the source mailbox, nothing is asked for.
pub open spec fn dispatch_move(m: AppModelView, envelope_hash: u64, source: u64, dest: u64) -> Outcome {
    if m.has_cache && account_of(m, source) is None {
        only_status(
            m,
            "Cannot queue move cache update: no account for source mailbox "@ + spec_decimal(
                source as nat,
            ),
        )
    } else {
        let cache_part = if m.has_cache {
            seq![
                Effect::CacheUpdateFlags {
                    envelope_hash: envelope_hash,
                    flags: moved_flags(),
                    op: PendingOp::Move(dest),
                },
            ]
        } else {
            Seq::empty()
        };
        let session_part = match session_of(m, source) {
            Some(a) => seq![
                Effect::MoveMessage {
                    account: a as usize,
                    envelope_hash: envelope_hash,
                    source_mailbox: source,
                    dest_mailbox: dest,
                },
            ],
            None => Seq::empty(),
        };
        Outcome { model: m, effects: cache_part + session_part }
    }
}

/// The start of a move of the message at `index`: the message leaves the list, is kept
/// with its place for the case of failure, and the requests go out.
pub open spec fn start_move(m: AppModelView, index: usize, source: u64, dest: u64) -> Outcome {
    let msg = m.messages[index as int];
    let m1 = remove_optimistic(m, index);
    let m2 = AppModelView {
        pending_move_restore: pending_put(
            m1.pending_move_restore,
            PendingMoveView { envelope_hash: msg.envelope_hash, message: msg, position: index },
        ),
        ..m1
    };
    dispatch_move(m2, msg.envelope_hash, source, dest)
}

/// The mailbox id of the folder with the first path, or else of the one with the second.
pub open spec fn named_folder(folders: Seq<FolderView>, first: Seq<char>, second: Seq<char>) -> Option<
    u64,
> {
    match spec_folder_hash(folders, first) {
        Some(h) => Some(h),
        None => spec_folder_hash(folders, second),
    }
}

/// A move of the message at `index` to the folder of its account that has one of two
/// well-known paths. Without such a folder nothing changes but the status line.
pub open spec fn step_move_to_named(
    m: AppModelView,
    index: usize,
    first: Seq<char>,
    second: Seq<char>,
    missing: Seq<char>,
) -> Outcome {
    if index >= m.messages.len() {
        unchanged(m)
    } else {
        let msg = m.messages[index as int];
        match account_of(m, msg.mailbox_hash) {
            Some(a) => match named_folder(m.accounts[a].folders, first, second) {
                Some(dest) => start_move(m, index, msg.mailbox_hash, dest),
                None => only_status(m, missing),
            },
            None => only_status(m, missing),
        }
    }
}

/// Moving the message at `index` to the trash.
pub open spec fn step_trash(m: AppModelView, index: usize) -> Outcome {
    step_move_to_named(m, index, "Trash"@, "INBOX.Trash"@, "Trash folder not found"@)
}

/// Moving the message at `index` to the archive.
pub open spec fn step_archive(m: AppModelView, index: usize) -> Outcome {
    step_move_to_named(m, index, "Archive"@, "INBOX.Archive"@, "Archive folder not found"@)
}

/// A message dropped on a folder. A drop on its own folder does nothing; a drop on a
/// folder of another account is refused before anything changes.
pub open spec fn step_drag_to_folder(m: AppModelView, envelope_hash: u64, source: u64, dest: u64) -> Outcome {
    let m0 = AppModelView { folder_drag_target: None, ..m };
    if source == dest {
        unchanged(m0)
    } else if account_of(m, source) != account_of(m, dest) {
        only_status(m0, "Cannot move messages between accounts"@)
    } else {
        match first_match(m.messages, has_hash(envelope_hash)) {
            Some(i) => start_move(m0, i as usize, source, dest),
            None => unchanged(m0),
        }
    }
}

/// The list with the flags of a message set back to a flag byte.
pub open spec fn with_flags_restored(
    messages: Seq<MessageSummaryView>,
    envelope_hash: u64,
    flags: u8,
) -> Seq<MessageSummaryView> {
    match first_match(messages, has_hash(envelope_hash)) {
        Some(i) => messages.update(
            i,
            MessageSummaryView {
                is_read: spec_flags_from_u8(flags).0,
                is_starred: spec_flags_from_u8(flags).1,
                ..messages[i]
            },
        ),
        None => messages,
    }
}

/// The answer of the server to the flag request for one operation. On success the
/// cache takes over the confirmed flags for that operation. On failure the list shows
/// again exactly the flags from before the toggle, and the cache gives up the intent.
pub open spec fn step_flag_done(
    m: AppModelView,
    envelope_hash: u64,
    op: PendingOp,
    prev_flags: u8,
    result: Result<u8, Seq<char>>,
) -> Outcome {
    match result {
        Ok(flags) => if !m.has_cache {
            unchanged(m)
        } else if account_of_message(m, envelope_hash) is None {
            only_status(
                m,
                "Cannot clear cache pending op: no account for message "@ + spec_decimal(
                    envelope_hash as nat,
                ),
            )
        } else {
            Outcome {
                model: m,
                effects: seq![
                    Effect::CacheConfirmPendingOp { envelope_hash: envelope_hash, op: op, flags: flags },
                ],
            }
        },
        Err(e) => {
            let m1 = AppModelView {
                status_message: "Flag update failed: "@ + e,
                messages: with_flags_restored(m.messages, envelope_hash, prev_flags),
                ..m
            };
            if !m.has_cache {
                unchanged(m1)
            } else if account_of_message(m, envelope_hash) is None {
                only_status(
                    m1,
                    "Cannot revert cache pending op: no account for message "@ + spec_decimal(
                        envelope_hash as nat,
                    ),
                )
            } else {
                Outcome {
                    model: m1,
                    effects: seq![Effect::CacheRevertPendingOp { envelope_hash: envelope_hash }],
                }
            }
        },
    }
}

/// The least of two numbers.
pub open spec fn least(a: int, b: int) -> int {
    if a <= b {
        a
    } else {
        b
    }
}

/// The answer of the server to a move request. On success the kept message is dropped
/// and the cache forgets the message. On failure the kept message goes back into the
/// list at its old place, or at the end where the list has become shorter, and is
/// selected; the cache is left as it is.
pub open spec fn step_move_done(m: AppModelView, envelope_hash: u64, result: Result<(), Seq<char>>) -> Outcome {
    let table = m.pending_move_restore;
    let entry = first_match(table, moves_hash(envelope_hash));
    let rest = keep(table, moves_other(envelope_hash));
    match result {
        Ok(_) => {
            let account = match entry {
                Some(k) => account_of(m, table[k].message.mailbox_hash),
                None => None,
            };
            let m1 = AppModelView { pending_move_restore: rest, ..m };
            if account is None {
                only_status(
                    m1,
                    "Cannot remove moved message from cache: missing account for "@ + spec_decimal(
                        envelope_hash as nat,
                    ),
                )
            } else if m.has_cache {
                Outcome {
                    model: m1,
                    effects: seq![Effect::CacheRemoveMessage { envelope_hash: envelope_hash }],
                }
            } else {
                unchanged(m1)
            }
        },
        Err(e) => {
            let m1 = match entry {
                Some(k) => {
                    let at = least(table[k].position as int, m.messages.len() as int);
                    let messages = m.messages.insert(at, table[k].message);
                    AppModelView {
                        messages: messages,
                        selected_message: Some(at as usize),
                        pending_move_restore: rest,
                        visible_indices: spec_visible(messages, m.collapsed_threads),
                        ..m
                    }
                },
                None => AppModelView { pending_move_restore: rest, ..m },
            };
            only_status(m1, "Move failed: "@ + e)
        },
    }
}

} // verus!
