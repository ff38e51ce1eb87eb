use crate::actions::{unchanged, with_flags_restored, Outcome};
use crate::effects::{Effect, RECONNECT_DELAY_SECS};
use crate::model::{
    has_account_id, has_hash, spec_visible, AccountStateView, AppModel, AppModelView,
};
use crate::models::{AttachmentDataView, ConnectionState, ConnectionStateView};
use crate::flags::flags_from_u8;
use crate::seqs::first_match;
use crate::sync::{active_mailbox, set_account, step_refresh};
use crate::text::{str_eq, text_and_text};
use vstd::prelude::*;
use vstd::string::*;

verus! {

/// What the server pushes while a mailbox is watched.
#[derive(Debug, Clone)]
pub enum ImapWatchEvent {
    NewMessage { mailbox_hash: u64, subject: String, from: String },
    MessageRemoved { mailbox_hash: u64, envelope_hash: u64 },
    FlagsChanged { mailbox_hash: u64, envelope_hash: u64, flags: u8 },
    Rescan,
    WatchError(String),
    WatchEnded,
}

/// A pushed event, as plain values.
pub enum ImapWatchEventView {
    NewMessage { mailbox_hash: u64, subject: Seq<char>, from: Seq<char> },
    MessageRemoved { mailbox_hash: u64, envelope_hash: u64 },
    FlagsChanged { mailbox_hash: u64, envelope_hash: u64, flags: u8 },
    Rescan,
    WatchError(Seq<char>),
    WatchEnded,
}

impl View for ImapWatchEvent {
    type V = ImapWatchEventView;

    open spec fn view(&self) -> ImapWatchEventView {
        match self {
            ImapWatchEvent::NewMessage { mailbox_hash, subject, from } => ImapWatchEventView::NewMessage {
                mailbox_hash: *mailbox_hash,
                subject: subject@,
                from: from@,
            },
            ImapWatchEvent::MessageRemoved { mailbox_hash, envelope_hash } => ImapWatchEventView::MessageRemoved {
                mailbox_hash: *mailbox_hash,
                envelope_hash: *envelope_hash,
            },
            ImapWatchEvent::FlagsChanged { mailbox_hash, envelope_hash, flags } => ImapWatchEventView::FlagsChanged {
                mailbox_hash: *mailbox_hash,
                envelope_hash: *envelope_hash,
                flags: *flags,
            },
            ImapWatchEvent::Rescan => ImapWatchEventView::Rescan,
            ImapWatchEvent::WatchError(e) => ImapWatchEventView::WatchError(e@),
            ImapWatchEvent::WatchEnded => ImapWatchEventView::WatchEnded,
        }
    }
}

/// Whether the mailbox of an account is the one that is shown.
pub open spec fn is_shown(m: AppModelView, account_id: Seq<char>, mailbox_hash: u64) -> bool {
    m.active_account is Some && m.active_account->0 < m.accounts.len()
        && m.accounts[m.active_account->0 as int].config.id == account_id && active_mailbox(m)
        == Some(mailbox_hash)
}

/// The list after the server removed the message at `pos`. A selection behind it moves
/// up by one; a selection on it goes to the message that takes its place, or to the last
/// one, and the preview is cleared.
pub open spec fn drop_listed(m: AppModelView, pos: int) -> AppModelView {
    let messages = m.messages.remove(pos);
    let was_selected = m.selected_message == Some(pos as usize);
    AppModelView {
        messages: messages,
        selected_message: match m.selected_message {
            Some(sel) => if sel == pos {
                if messages.len() == 0 {
                    None
                } else if sel <= messages.len() - 1 {
                    Some(sel)
                } else {
                    Some((messages.len() - 1) as usize)
                }
            } else if sel > pos {
                Some((sel - 1) as usize)
            } else {
                Some(sel)
            },
            None => None,
        },
        preview_body: if was_selected {
            Seq::empty()
        } else {
            m.preview_body
        },
        preview_markdown: if was_selected {
            Seq::empty()
        } else {
            m.preview_markdown
        },
        preview_attachments: if was_selected {
            Seq::empty()
        } else {
            m.preview_attachments
        },
        visible_indices: spec_visible(messages, m.collapsed_threads),
        ..m
    }
}

/// A new message arrived: the user is notified, and where its mailbox is shown all
/// connected accounts are refreshed.
pub open spec fn step_new_message(m: AppModelView, account_id: Seq<char>, mailbox_hash: u64) -> Outcome {
    if is_shown(m, account_id, mailbox_hash) {
        let r = step_refresh(m);
        Outcome { model: r.model, effects: seq![Effect::NotifyNewMessage] + r.effects }
    } else {
        Outcome { model: m, effects: seq![Effect::NotifyNewMessage] }
    }
}

/// The server removed a message. The cache forgets it; the list loses it where its
/// mailbox is shown.
pub open spec fn step_message_removed(
    m: AppModelView,
    account_id: Seq<char>,
    mailbox_hash: u64,
    envelope_hash: u64,
) -> Outcome {
    let m1 = if is_shown(m, account_id, mailbox_hash) {
        match first_match(m.messages, has_hash(envelope_hash)) {
            Some(pos) => drop_listed(m, pos),
            None => m,
        }
    } else {
        m
    };
    Outcome {
        model: m1,
        effects: if m.has_cache {
            seq![Effect::CacheRemoveMessage { envelope_hash: envelope_hash }]
        } else {
            Seq::empty()
        },
    }
}

/// The server changed the flags of a message. The cache takes them over as confirmed;
/// the list shows them where the mailbox of the message is shown.
pub open spec fn step_flags_changed(
    m: AppModelView,
    account_id: Seq<char>,
    mailbox_hash: u64,
    envelope_hash: u64,
    flags: u8,
) -> Outcome {
    let m1 = if is_shown(m, account_id, mailbox_hash) {
        AppModelView { messages: with_flags_restored(m.messages, envelope_hash, flags), ..m }
    } else {
        m
    };
    Outcome {
        model: m1,
        effects: if m.has_cache {
            seq![Effect::CacheClearPendingOp { envelope_hash: envelope_hash, flags: flags }]
        } else {
            Seq::empty()
        },
    }
}

/// The watch of an account broke off: the account is in error, its session is dropped,
/// and after a fixed delay the connection is tried again.
pub open spec fn step_watch_lost(m: AppModelView, account_id: Seq<char>, reason: Seq<char>) -> Outcome {
    match first_match(m.accounts, has_account_id(account_id)) {
        None => unchanged(m),
        Some(idx) => Outcome {
            model: set_account(
                m,
                idx,
                AccountStateView {
                    conn_state: ConnectionStateView::Error(reason),
                    has_session: false,
                    ..m.accounts[idx]
                },
            ),
            effects: seq![
                Effect::ReconnectLater { account: idx as usize, delay_secs: RECONNECT_DELAY_SECS },
            ],
        },
    }
}

/// What a pushed event of an account leads to.
pub open spec fn step_watch(m: AppModelView, account_id: Seq<char>, event: ImapWatchEventView) -> Outcome {
    match event {
        ImapWatchEventView::NewMessage { mailbox_hash, subject, from } => step_new_message(
            m,
            account_id,
            mailbox_hash,
        ),
        ImapWatchEventView::MessageRemoved { mailbox_hash, envelope_hash } => step_message_removed(
            m,
            account_id,
            mailbox_hash,
            envelope_hash,
        ),
        ImapWatchEventView::FlagsChanged { mailbox_hash, envelope_hash, flags } => step_flags_changed(
            m,
            account_id,
            mailbox_hash,
            envelope_hash,
            flags,
        ),
        ImapWatchEventView::Rescan => step_refresh(m),
        ImapWatchEventView::WatchError(e) => step_watch_lost(m, account_id, e),
        ImapWatchEventView::WatchEnded => step_watch_lost(m, account_id, "Connection lost"@),
    }
}

/// The headline of the notification for a new message.
pub open spec fn spec_notification_summary(from: Seq<char>) -> Seq<char> {
    "From: "@ + from
}

/// The headline of the notification for a new message from `from`.
pub fn notification_summary(from: &str) -> (s: String)
    ensures
        s@ == spec_notification_summary(from@),
{
    text_and_text("From: ", from)
}

impl AppModel {
    /// Whether the mailbox of an account is the one that is shown.
    pub fn shows(&self, account_id: &str, mailbox_hash: u64) -> (r: bool)
        ensures
            r == is_shown(self@, account_id@, mailbox_hash),
    {
        match self.active_account {
            Some(a) => {
                if a < self.accounts.len() {
                    assert(self.accounts@[a as int]@ == self@.accounts[a as int]);
                    let same = str_eq(self.accounts[a].config.id.as_str(), account_id);
                    match self.shown_mailbox() {
                        Some(h) => same && h == mailbox_hash,
                        None => false,
                    }
                } else {
                    false
                }
            },
            None => false,
        }
    }

    /// Takes the message at `pos` out of the list after the server removed it.
    fn drop_message(&mut self, pos: usize)
        requires
            pos < old(self).messages.len(),
        ensures
            final(self)@ == drop_listed(old(self)@, pos as int),
    {
        let _ = self.messages.remove(pos);
        assert(self@.messages =~= old(self)@.messages.remove(pos as int));
        assert(self@.messages.len() == self.messages.len());
        match self.selected_message {
            Some(sel) => {
                if sel == pos {
                    if self.messages.len() == 0 {
                        self.selected_message = None;
                    } else if sel > self.messages.len() - 1 {
                        self.selected_message = Some(self.messages.len() - 1);
                    }
                    self.preview_body = String::new();
                    self.preview_markdown = String::new();
                    self.preview_attachments = Vec::new();
                    assert(self@.preview_attachments =~= Seq::<AttachmentDataView>::empty());
                } else if sel > pos {
                    self.selected_message = Some(sel - 1);
                }
            },
            None => {},
        }
        self.recompute_visible();
    }

    /// Shows the given flags on the listed message with the given id.
    pub(crate) fn show_flags(&mut self, envelope_hash: u64, flags: u8)
        ensures
            final(self)@ == (AppModelView {
                messages: with_flags_restored(old(self)@.messages, envelope_hash, flags),
                ..old(self)@
            }),
    {
        match self.message_position(envelope_hash) {
            Some(i) => {
                let (is_read, is_starred) = flags_from_u8(flags);
                self.messages[i].is_read = is_read;
                self.messages[i].is_starred = is_starred;
                assert(self@.messages =~= with_flags_restored(
                    old(self)@.messages,
                    envelope_hash,
                    flags,
                ));
            },
            None => {},
        }
    }

    /// The watch of an account broke off.
    fn watch_lost(&mut self, account_id: &str, reason: String) -> (effects: Vec<Effect>)
        ensures
            final(self)@ == step_watch_lost(old(self)@, account_id@, reason@).model,
            effects@ == step_watch_lost(old(self)@, account_id@, reason@).effects,
    {
        let mut effects: Vec<Effect> = Vec::new();
        match self.account_index(account_id) {
            Some(idx) => {
                self.set_conn_state(idx, ConnectionState::Error(reason));
                self.set_session(idx, false);
                assert(self@.accounts =~= old(self)@.accounts.update(
                    idx as int,
                    AccountStateView {
                        conn_state: ConnectionStateView::Error(reason@),
                        has_session: false,
                        ..old(self)@.accounts[idx as int]
                    },
                ));
                effects.push(Effect::ReconnectLater { account: idx, delay_secs: RECONNECT_DELAY_SECS });
            },
            None => {},
        }
        assert(effects@ =~= step_watch_lost(old(self)@, account_id@, reason@).effects);
        effects
    }

    /// The server removed a message.
    fn message_removed(&mut self, account_id: &str, mailbox_hash: u64, envelope_hash: u64) -> (effects:
        Vec<Effect>)
        ensures
            final(self)@ == step_message_removed(
                old(self)@,
                account_id@,
                mailbox_hash,
                envelope_hash,
            ).model,
            effects@ == step_message_removed(
                old(self)@,
                account_id@,
                mailbox_hash,
                envelope_hash,
            ).effects,
    {
        let mut effects: Vec<Effect> = Vec::new();
        if self.shows(account_id, mailbox_hash) {
            match self.message_position(envelope_hash) {
                Some(pos) => {
                    self.drop_message(pos);
                },
                None => {},
            }
        }
        if self.has_cache {
            effects.push(Effect::CacheRemoveMessage { envelope_hash });
        }
        assert(effects@ =~= step_message_removed(
            old(self)@,
            account_id@,
            mailbox_hash,
            envelope_hash,
        ).effects);
        effects
    }

    /// The server changed the flags of a message.
    fn flags_changed(&mut self, account_id: &str, mailbox_hash: u64, envelope_hash: u64, flags: u8) -> (effects:
        Vec<Effect>)
        ensures
            final(self)@ == step_flags_changed(
                old(self)@,
                account_id@,
                mailbox_hash,
                envelope_hash,
                flags,
            ).model,
            effects@ == step_flags_changed(
                old(self)@,
                account_id@,
                mailbox_hash,
                envelope_hash,
                flags,
            ).effects,
    {
        let mut effects: Vec<Effect> = Vec::new();
        if self.shows(account_id, mailbox_hash) {
            self.show_flags(envelope_hash, flags);
        }
        if self.has_cache {
            effects.push(Effect::CacheClearPendingOp { envelope_hash, flags });
        }
        assert(effects@ =~= step_flags_changed(
            old(self)@,
            account_id@,
            mailbox_hash,
            envelope_hash,
            flags,
        ).effects);
        effects
    }

    /// A new message arrived.
    fn new_message(&mut self, account_id: &str, mailbox_hash: u64) -> (effects: Vec<Effect>)
        ensures
            final(self)@ == step_new_message(old(self)@, account_id@, mailbox_hash).model,
            effects@ == step_new_message(old(self)@, account_id@, mailbox_hash).effects,
    {
        let mut effects: Vec<Effect> = Vec::new();
        effects.push(Effect::NotifyNewMessage);
        if self.shows(account_id, mailbox_hash) {
            let mut more = self.refresh();
            effects.append(&mut more);
        }
        assert(effects@ =~= step_new_message(old(self)@, account_id@, mailbox_hash).effects);
        effects
    }

    /// Applies an event that the server pushed for an account.
    pub fn handle_watch(&mut self, account_id: &str, event: ImapWatchEvent) -> (effects: Vec<Effect>)
        ensures
            final(self)@ == step_watch(old(self)@, account_id@, event@).model,
            effects@ == step_watch(old(self)@, account_id@, event@).effects,
    {
        match event {
            ImapWatchEvent::NewMessage { mailbox_hash, subject, from } => self.new_message(
                account_id,
                mailbox_hash,
            ),
            ImapWatchEvent::MessageRemoved { mailbox_hash, envelope_hash } => self.message_removed(
                account_id,
                mailbox_hash,
                envelope_hash,
            ),
            ImapWatchEvent::FlagsChanged { mailbox_hash, envelope_hash, flags } => self.flags_changed(
                account_id,
                mailbox_hash,
                envelope_hash,
                flags,
            ),
            ImapWatchEvent::Rescan => self.refresh(),
            ImapWatchEvent::WatchError(e) => self.watch_lost(account_id, e),
            ImapWatchEvent::WatchEnded => self.watch_lost(
                account_id,
                String::from_str("Connection lost"),
            ),
        }
    }
}

} // verus!
