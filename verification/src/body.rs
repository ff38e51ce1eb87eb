use crate::actions::{account_of, only_status, session_of, unchanged, Outcome};
use crate::effects::Effect;
use crate::model::{spec_is_busy, AppModel, AppModelView};
use crate::models::{AttachmentData, AttachmentDataView};
use crate::seqs::view_all;
use crate::store::CachedBody;
use crate::text::{text_and_number, text_and_text, spec_decimal};
use vstd::prelude::*;
use vstd::string::*;

verus! {

/// The place of the active account, where it has a session.
pub open spec fn active_session(m: AppModelView) -> Option<int> {
    match m.active_account {
        Some(i) => if i < m.accounts.len() && m.accounts[i as int].has_session {
            Some(i as int)
        } else {
            None
        },
        None => None,
    }
}

/// The account whose session fetches the bodies of a mailbox: the one that owns the
/// mailbox, or else the active one.
pub open spec fn body_session(m: AppModelView, mailbox_hash: u64) -> Option<int> {
    match session_of(m, mailbox_hash) {
        Some(a) => Some(a),
        None => active_session(m),
    }
}

/// An optional place as a machine number.
pub open spec fn as_place(i: Option<int>) -> Option<usize> {
    match i {
        Some(a) => Some(a as usize),
        None => None,
    }
}

/// The user opens the message at `index`. The body comes from the cache where it can,
/// from the server otherwise; with neither cache nor session the request waits until a
/// session is there.
pub open spec fn step_view_body(m: AppModelView, index: usize) -> Outcome {
    let m0 = AppModelView { selected_message: Some(index), pending_body: None, ..m };
    if index >= m.messages.len() {
        unchanged(m0)
    } else {
        let msg = m.messages[index as int];
        let session = body_session(m, msg.mailbox_hash);
        if m.has_cache {
            if account_of(m, msg.mailbox_hash) is None {
                only_status(
                    m0,
                    "Cannot access body cache: no account for mailbox "@ + spec_decimal(
                        msg.mailbox_hash as nat,
                    ),
                )
            } else {
                Outcome {
                    model: AppModelView { status_message: "Loading message..."@, ..m0 },
                    effects: seq![
                        Effect::LoadBody {
                            envelope_hash: msg.envelope_hash,
                            use_cache: true,
                            session_account: as_place(session),
                        },
                    ],
                }
            }
        } else if session is Some {
            Outcome {
                model: AppModelView { status_message: "Loading message..."@, ..m0 },
                effects: seq![
                    Effect::LoadBody {
                        envelope_hash: msg.envelope_hash,
                        use_cache: false,
                        session_account: as_place(session),
                    },
                ],
            }
        } else {
            unchanged(
                AppModelView { pending_body: Some(index), status_message: "Connecting..."@, ..m0 },
            )
        }
    }
}

/// The body could not be loaded for want of a session: the request waits.
pub open spec fn step_body_deferred(m: AppModelView) -> Outcome {
    match m.selected_message {
        Some(index) => unchanged(
            AppModelView { pending_body: Some(index), status_message: "Connecting..."@, ..m },
        ),
        None => unchanged(m),
    }
}

/// A body arrived and is shown.
pub open spec fn step_body_loaded(
    m: AppModelView,
    markdown: Seq<char>,
    plain: Seq<char>,
    attachments: Seq<AttachmentDataView>,
) -> Outcome {
    unchanged(
        AppModelView {
            preview_markdown: markdown,
            preview_body: plain,
            preview_attachments: attachments,
            status_message: "Ready"@,
            ..m
        },
    )
}

/// Loading a body failed. While the active account is still connecting or synchronising
/// the request waits; otherwise the failure is shown in place of the body.
pub open spec fn step_body_failed(m: AppModelView, error: Seq<char>) -> Outcome {
    if spec_is_busy(m) && m.selected_message is Some {
        unchanged(
            AppModelView { pending_body: m.selected_message, status_message: "Syncing..."@, ..m },
        )
    } else {
        unchanged(
            AppModelView {
                preview_markdown: "Failed to load message body: "@ + error,
                preview_body: "Failed to load message body: "@ + error,
                status_message: "Error loading message"@,
                ..m
            },
        )
    }
}

/// The user asks for the body to be copied: done where there is one.
pub open spec fn step_copy_body(m: AppModelView) -> Outcome {
    if m.preview_body.len() > 0 {
        Outcome { model: m, effects: seq![Effect::CopyBody] }
    } else {
        unchanged(m)
    }
}

/// The user asks for an attachment to be saved: done where there is one at that place.
pub open spec fn step_save_attachment(m: AppModelView, index: usize) -> Outcome {
    if index < m.preview_attachments.len() {
        Outcome { model: m, effects: seq![Effect::SaveAttachment { index: index }] }
    } else {
        unchanged(m)
    }
}

/// The attachment was saved, or not.
pub open spec fn step_attachment_saved(m: AppModelView, result: Result<Seq<char>, Seq<char>>) -> Outcome {
    match result {
        Ok(path) => only_status(m, "Saved to "@ + path),
        Err(e) => only_status(m, e),
    }
}

/// The view of a result of two texts.
pub open spec fn texts_view(r: Result<String, String>) -> Result<Seq<char>, Seq<char>> {
    match r {
        Ok(s) => Ok(s@),
        Err(e) => Err(e@),
    }
}

/// What is to be done for a body once the cache has answered.
#[derive(Debug)]
pub enum BodyStep {
    /// The cache has the body: it is shown.
    Show(CachedBody),
    /// The cache has it not, and there is a session: the body is fetched from the
    /// server, and stored in the cache where `store` holds.
    Fetch { store: bool },
    /// The cache has it not, and there is no session: the request waits.
    Defer,
}

/// What is to be done for a body. `cached` is what the cache answered, or a miss where
/// no cache is used; an error of the cache counts as a miss.
pub open spec fn spec_body_step(
    use_cache: bool,
    cached: Result<Option<CachedBody>, String>,
    has_session: bool,
) -> BodyStep {
    match cached {
        Ok(Some(body)) => BodyStep::Show(body),
        _ => if has_session {
            BodyStep::Fetch { store: use_cache }
        } else {
            BodyStep::Defer
        },
    }
}

/// Decides what is to be done for a body once the cache has answered.
pub fn next_body_step(
    use_cache: bool,
    cached: Result<Option<CachedBody>, String>,
    has_session: bool,
) -> (step: BodyStep)
    ensures
        step == spec_body_step(use_cache, cached, has_session),
{
    match cached {
        Ok(Some(body)) => BodyStep::Show(body),
        _ => if has_session {
            BodyStep::Fetch { store: use_cache }
        } else {
            BodyStep::Defer
        },
    }
}

impl AppModel {
    /// The place of the account whose session fetches the bodies of a mailbox.
    fn session_for_body(&self, mailbox_hash: u64) -> (r: Option<usize>)
        ensures
            r == as_place(body_session(self@, mailbox_hash)),
            r matches Some(a) ==> a < self.accounts.len(),
    {
        match self.account_for_mailbox(mailbox_hash) {
            Some(a) => {
                assert(self.accounts@[a as int]@ == self@.accounts[a as int]);
                if self.accounts[a].has_session {
                    return Some(a);
                }
            },
            None => {},
        }
        match self.active_account {
            Some(i) => {
                if i < self.accounts.len() {
                    assert(self.accounts@[i as int]@ == self@.accounts[i as int]);
                    if self.accounts[i].has_session {
                        return Some(i);
                    }
                }
                None
            },
            None => None,
        }
    }

    /// The user opens the message at `index`.
    pub fn view_body(&mut self, index: usize) -> (effects: Vec<Effect>)
        ensures
            final(self)@ == step_view_body(old(self)@, index).model,
            effects@ == step_view_body(old(self)@, index).effects,
    {
        let mut effects: Vec<Effect> = Vec::new();
        self.selected_message = Some(index);
        self.pending_body = None;
        if index >= self.messages.len() {
            return effects;
        }
        assert(self.messages@[index as int]@ == self@.messages[index as int]);
        let envelope_hash = self.messages[index].envelope_hash;
        let mailbox_hash = self.messages[index].mailbox_hash;
        let session = self.session_for_body(mailbox_hash);
        if self.has_cache {
            if self.account_for_mailbox(mailbox_hash).is_none() {
                self.status_message = text_and_number(
                    "Cannot access body cache: no account for mailbox ",
                    mailbox_hash,
                );
                return effects;
            }
            self.status_message = String::from_str("Loading message...");
            effects.push(Effect::LoadBody { envelope_hash, use_cache: true, session_account: session });
        } else if session.is_some() {
            self.status_message = String::from_str("Loading message...");
            effects.push(
                Effect::LoadBody { envelope_hash, use_cache: false, session_account: session },
            );
        } else {
            self.pending_body = Some(index);
            self.status_message = String::from_str("Connecting...");
        }
        assert(effects@ =~= step_view_body(old(self)@, index).effects);
        effects
    }

    /// The body could not be loaded for want of a session.
    pub fn body_deferred(&mut self) -> (effects: Vec<Effect>)
        ensures
            final(self)@ == step_body_deferred(old(self)@).model,
            effects@ == step_body_deferred(old(self)@).effects,
    {
        match self.selected_message {
            Some(index) => {
                self.pending_body = Some(index);
                self.status_message = String::from_str("Connecting...");
            },
            None => {},
        }
        Vec::new()
    }

    /// A body arrived, or loading it failed.
    pub fn body_loaded(&mut self, result: Result<(String, String, Vec<AttachmentData>), String>) -> (effects:
        Vec<Effect>)
        ensures
            match result {
                Ok(body) => final(self)@ == step_body_loaded(
                    old(self)@,
                    body.0@,
                    body.1@,
                    view_all(body.2@),
                ).model && effects@ == step_body_loaded(
                    old(self)@,
                    body.0@,
                    body.1@,
                    view_all(body.2@),
                ).effects,
                Err(e) => final(self)@ == step_body_failed(old(self)@, e@).model && effects@
                    == step_body_failed(old(self)@, e@).effects,
            },
    {
        match result {
            Ok((markdown, plain, attachments)) => {
                self.preview_markdown = markdown;
                self.preview_body = plain;
                self.preview_attachments = attachments;
                self.status_message = String::from_str("Ready");
            },
            Err(e) => {
                if self.is_busy() && self.selected_message.is_some() {
                    self.pending_body = self.selected_message;
                    self.status_message = String::from_str("Syncing...");
                } else {
                    self.preview_markdown = text_and_text("Failed to load message body: ", e.as_str());
                    self.preview_body = text_and_text("Failed to load message body: ", e.as_str());
                    self.status_message = String::from_str("Error loading message");
                }
            },
        }
        Vec::new()
    }

    /// The user asks for the body to be copied.
    pub fn copy_body(&mut self) -> (effects: Vec<Effect>)
        ensures
            final(self)@ == step_copy_body(old(self)@).model,
            effects@ == step_copy_body(old(self)@).effects,
    {
        let mut effects: Vec<Effect> = Vec::new();
        if !self.preview_body.as_str().is_empty() {
            effects.push(Effect::CopyBody);
        }
        assert(effects@ =~= step_copy_body(old(self)@).effects);
        effects
    }

    /// The user asks for the attachment at `index` to be saved.
    pub fn save_attachment(&mut self, index: usize) -> (effects: Vec<Effect>)
        ensures
            final(self)@ == step_save_attachment(old(self)@, index).model,
            effects@ == step_save_attachment(old(self)@, index).effects,
    {
        let mut effects: Vec<Effect> = Vec::new();
        if index < self.preview_attachments.len() {
            effects.push(Effect::SaveAttachment { index });
        }
        assert(effects@ =~= step_save_attachment(old(self)@, index).effects);
        effects
    }

    /// The attachment was saved, or not.
    pub fn save_attachment_complete(&mut self, result: Result<String, String>) -> (effects: Vec<
        Effect,
    >)
        ensures
            final(self)@ == step_attachment_saved(old(self)@, texts_view(result)).model,
            effects@ == step_attachment_saved(old(self)@, texts_view(result)).effects,
    {
        match result {
            Ok(path) => {
                self.status_message = text_and_text("Saved to ", path.as_str());
            },
            Err(e) => {
                self.status_message = e;
            },
        }
        Vec::new()
    }
}

} // verus!
