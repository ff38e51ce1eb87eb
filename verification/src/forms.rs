use crate::compose::{
    build_references, forward_body, forward_subject, quote_body, reply_subject,
    spec_build_references, spec_forward_body, spec_marked_subject, spec_quote_body, ComposeMode,
};
use crate::config::{parse_port, spec_port};
use crate::model::{
    AccountConfig, AccountConfigView, AppModel, AppModelView, SmtpOverrides, SmtpOverridesView,
};
use crate::models::{clone_attachments, AttachmentData, MessageSummary};
use crate::seqs::view_all;
use crate::text::{
    is_blank, list_items, opt_clone, opt_view, spec_list_items, spec_trim, text_and_text, trimmed,
};
use vstd::prelude::*;
use vstd::string::*;

verus! {

/// What the setup dialog holds when the user submits it.
#[derive(Debug, Clone)]
pub struct SetupForm {
    pub label: String,
    pub server: String,
    pub port: String,
    pub username: String,
    pub password: String,
    pub starttls: bool,
    pub email_addresses: String,
    pub smtp_server: String,
    pub smtp_port: String,
    pub smtp_username: String,
    pub smtp_password: String,
    pub smtp_starttls: bool,
}

/// A text of the form as an optional setting: nothing where the text is blank, else the
/// text without the white space around it.
pub open spec fn spec_optional_text(s: Seq<char>) -> Option<Seq<char>> {
    if spec_trim(s).len() == 0 {
        None
    } else {
        Some(spec_trim(s))
    }
}

/// The settings for sending that a form gives: server, user and password where they
/// are filled in, the port where it is a number of 16 bits, and STARTTLS as it is set.
pub open spec fn spec_form_overrides(form: SetupForm) -> SmtpOverridesView {
    SmtpOverridesView {
        server: spec_optional_text(form.smtp_server@),
        port: spec_port(spec_trim(form.smtp_port@)),
        username: spec_optional_text(form.smtp_username@),
        password: if form.smtp_password@.len() == 0 {
            None
        } else {
            Some(form.smtp_password@)
        },
        use_starttls: Some(form.smtp_starttls),
    }
}

/// A text as an optional setting.
pub fn optional_text(s: &str) -> (r: Option<String>)
    ensures
        opt_view(r) == spec_optional_text(s@),
{
    let t = trimmed(s);
    if t.as_str().is_empty() {
        None
    } else {
        Some(t)
    }
}

/// The view of a result that carries an account configuration.
pub open spec fn config_result_view(r: Result<AccountConfig, String>) -> Result<
    AccountConfigView,
    Seq<char>,
> {
    match r {
        Ok(c) => Ok(c@),
        Err(e) => Err(e@),
    }
}

/// What checking a setup form gives: the configuration of the account, or what is
/// wrong. Server, user and password are needed, the port has to be a number of 16
/// bits, and unless the dialog asks for the password alone at least one address for
/// sending is needed. An empty label is replaced by the user name.
pub open spec fn spec_validate(form: SetupForm, password_only: bool, account_id: Seq<char>) -> Result<
    AccountConfigView,
    Seq<char>,
> {
    let server = spec_trim(form.server@);
    let username = spec_trim(form.username@);
    let label = spec_trim(form.label@);
    let addresses = spec_list_items(form.email_addresses@);
    if server.len() == 0 || username.len() == 0 || form.password@.len() == 0 {
        Err("All fields are required"@)
    } else {
        match spec_port(spec_trim(form.port@)) {
            None => Err("Port must be a number (e.g. 993)"@),
            Some(port) => if !password_only && addresses.len() == 0 {
                Err("At least one email address is required for sending"@)
            } else {
                Ok(
                    AccountConfigView {
                        id: account_id,
                        label: if label.len() == 0 {
                            username
                        } else {
                            label
                        },
                        imap_server: server,
                        imap_port: port,
                        username: username,
                        password: form.password@,
                        use_starttls: form.starttls,
                        email_addresses: addresses,
                        smtp_overrides: spec_form_overrides(form),
                    },
                )
            },
        }
    }
}

impl SetupForm {
    /// Checks the form and gives the configuration of the account, under the given id.
    pub fn validate(&self, password_only: bool, account_id: String) -> (r: Result<
        AccountConfig,
        String,
    >)
        ensures
            config_result_view(r) == spec_validate(*self, password_only, account_id@),
    {
        let server = trimmed(self.server.as_str());
        let username = trimmed(self.username.as_str());
        if server.as_str().is_empty() || username.as_str().is_empty()
            || self.password.as_str().is_empty() {
            return Err(String::from_str("All fields are required"));
        }
        let port_text = trimmed(self.port.as_str());
        let port = match parse_port(port_text.as_str()) {
            Some(p) => p,
            None => {
                return Err(String::from_str("Port must be a number (e.g. 993)"));
            },
        };
        let addresses = list_items(self.email_addresses.as_str());
        assert(view_all(addresses@).len() == addresses.len());
        if !password_only && addresses.len() == 0 {
            return Err(String::from_str("At least one email address is required for sending"));
        }
        let smtp_port_text = trimmed(self.smtp_port.as_str());
        let smtp_overrides = SmtpOverrides {
            server: optional_text(self.smtp_server.as_str()),
            port: parse_port(smtp_port_text.as_str()),
            username: optional_text(self.smtp_username.as_str()),
            password: if self.smtp_password.as_str().is_empty() {
                None
            } else {
                Some(self.smtp_password.clone())
            },
            use_starttls: Some(self.smtp_starttls),
        };
        let label = if is_blank(self.label.as_str()) {
            username.clone()
        } else {
            trimmed(self.label.as_str())
        };
        Ok(
            AccountConfig {
                id: account_id,
                label,
                imap_server: server,
                imap_port: port,
                username,
                password: self.password.clone(),
                use_starttls: self.starttls,
                email_addresses: addresses,
                smtp_overrides,
            },
        )
    }
}

/// A message that is being written.
#[derive(Debug, Clone)]
pub struct ComposeDraft {
    pub mode: ComposeMode,
    /// The place of the account that sends.
    pub account: usize,
    /// The place of the sender address among the addresses of the account.
    pub from: usize,
    pub to: String,
    pub subject: String,
    pub body: String,
    pub in_reply_to: Option<String>,
    pub references: Option<String>,
    pub attachments: Vec<AttachmentData>,
}

/// A message that is ready to be sent.
#[derive(Debug, Clone)]
pub struct OutgoingEmail {
    pub from: String,
    pub to: String,
    pub subject: String,
    pub body: String,
    pub in_reply_to: Option<String>,
    pub references: Option<String>,
    pub attachments: Vec<AttachmentData>,
}

/// The address that sends: the one at the chosen place, else the first, else none.
pub open spec fn spec_sender(addresses: Seq<Seq<char>>, from: usize) -> Seq<char> {
    if from < addresses.len() {
        addresses[from as int]
    } else if addresses.len() > 0 {
        addresses[0]
    } else {
        Seq::empty()
    }
}

/// What is wrong with a draft that is to be sent, if anything: recipient and body are
/// needed, the account has to exist, and it has to have an address to send from.
/// `addresses` are those of the sending account, or `None` where there is no such
/// account.
pub open spec fn spec_send_fault(
    to: Seq<char>,
    body: Seq<char>,
    addresses: Option<Seq<Seq<char>>>,
    from: usize,
) -> Option<Seq<char>> {
    if spec_trim(to).len() == 0 {
        Some("Recipient is required"@)
    } else if spec_trim(body).len() == 0 {
        Some("Message body is required"@)
    } else if addresses is None {
        Some("No account selected"@)
    } else if spec_sender(addresses->0, from).len() == 0 {
        Some("No email address configured. Re-run setup to add one."@)
    } else {
        None
    }
}

/// The views of optional addresses.
pub open spec fn opt_texts_view(a: Option<&Vec<String>>) -> Option<Seq<Seq<char>>> {
    match a {
        Some(v) => Some(view_all(v@)),
        None => None,
    }
}

impl ComposeDraft {
    /// An empty draft for a new message.
    pub fn new_message(account: usize) -> (d: ComposeDraft)
        ensures
            d.mode == ComposeMode::New,
            d.account == account,
            d.from == 0,
            d.to@.len() == 0,
            d.subject@.len() == 0,
            d.body@.len() == 0,
            d.in_reply_to is None,
            d.references is None,
            d.attachments@.len() == 0,
    {
        ComposeDraft {
            mode: ComposeMode::New,
            account,
            from: 0,
            to: String::new(),
            subject: String::new(),
            body: String::new(),
            in_reply_to: None,
            references: None,
            attachments: Vec::new(),
        }
    }

    /// The draft of a reply to a message: it goes to the sender, its subject is marked
    /// as a reply, its body starts with the quoted body behind two empty lines, and it
    /// refers to the message.
    pub fn reply(msg: &MessageSummary, preview_body: &str, account: usize) -> (d: ComposeDraft)
        ensures
            d.mode == ComposeMode::Reply,
            d.account == account,
            d.from == 0,
            d.to@ == msg@.from,
            d.subject@ == spec_marked_subject(msg@.subject, "Re: "@),
            d.body@ == "\n\n"@ + spec_quote_body(preview_body@, msg@.from, msg@.date),
            opt_view(d.in_reply_to) == Some(msg@.message_id),
            opt_view(d.references) == Some(
                spec_build_references(msg@.in_reply_to, msg@.message_id),
            ),
            d.attachments@.len() == 0,
    {
        let quoted = quote_body(preview_body, msg.from.as_str(), msg.date.as_str());
        let references = match &msg.in_reply_to {
            Some(irt) => build_references(Some(irt.as_str()), msg.message_id.as_str()),
            None => build_references(None, msg.message_id.as_str()),
        };
        ComposeDraft {
            mode: ComposeMode::Reply,
            account,
            from: 0,
            to: msg.from.clone(),
            subject: reply_subject(msg.subject.as_str()),
            body: text_and_text("\n\n", quoted.as_str()),
            in_reply_to: Some(msg.message_id.clone()),
            references: Some(references),
            attachments: Vec::new(),
        }
    }

    /// The draft that forwards a message: it has no recipient yet, its subject is marked
    /// as forwarded, its body starts with the forwarded message behind two empty lines,
    /// and it carries the attachments of the message.
    pub fn forward(
        msg: &MessageSummary,
        preview_body: &str,
        attachments: &Vec<AttachmentData>,
        account: usize,
    ) -> (d: ComposeDraft)
        ensures
            d.mode == ComposeMode::Forward,
            d.account == account,
            d.from == 0,
            d.to@.len() == 0,
            d.subject@ == spec_marked_subject(msg@.subject, "Fwd: "@),
            d.body@ == "\n\n"@ + spec_forward_body(
                preview_body@,
                msg@.from,
                msg@.date,
                msg@.subject,
            ),
            d.in_reply_to is None,
            d.references is None,
            view_all(d.attachments@) == view_all(attachments@),
    {
        let forwarded = forward_body(
            preview_body,
            msg.from.as_str(),
            msg.date.as_str(),
            msg.subject.as_str(),
        );
        ComposeDraft {
            mode: ComposeMode::Forward,
            account,
            from: 0,
            to: String::new(),
            subject: forward_subject(msg.subject.as_str()),
            body: text_and_text("\n\n", forwarded.as_str()),
            in_reply_to: None,
            references: None,
            attachments: clone_attachments(attachments),
        }
    }

    /// Checks the draft with the text of its body as the editor holds it, and gives the
    /// message to send or what is wrong. `addresses` are those of the sending account.
    pub fn check_send(&self, body_text: &str, addresses: Option<&Vec<String>>) -> (r: Result<
        OutgoingEmail,
        String,
    >)
        ensures
            match spec_send_fault(self.to@, body_text@, opt_texts_view(addresses), self.from) {
                Some(fault) => r is Err && r->Err_0@ == fault,
                None => r is Ok && ({
                    let mail = r->Ok_0;
                    &&& mail.from@ == spec_sender(view_all(addresses->0@), self.from)
                    &&& mail.to@ == self.to@
                    &&& mail.subject@ == self.subject@
                    &&& mail.body@ == body_text@
                    &&& opt_view(mail.in_reply_to) == opt_view(self.in_reply_to)
                    &&& opt_view(mail.references) == opt_view(self.references)
                    &&& view_all(mail.attachments@) == view_all(self.attachments@)
                }),
            },
    {
        if is_blank(self.to.as_str()) {
            return Err(String::from_str("Recipient is required"));
        }
        if is_blank(body_text) {
            return Err(String::from_str("Message body is required"));
        }
        let addresses = match addresses {
            Some(a) => a,
            None => {
                return Err(String::from_str("No account selected"));
            },
        };
        assert(view_all(addresses@).len() == addresses.len());
        let from = if self.from < addresses.len() {
            assert(view_all(addresses@)[self.from as int] == addresses@[self.from as int]@);
            addresses[self.from].clone()
        } else if addresses.len() > 0 {
            assert(view_all(addresses@)[0] == addresses@[0]@);
            addresses[0].clone()
        } else {
            String::new()
        };
        if from.as_str().is_empty() {
            return Err(String::from_str("No email address configured. Re-run setup to add one."));
        }
        Ok(
            OutgoingEmail {
                from,
                to: self.to.clone(),
                subject: self.subject.clone(),
                body: String::from_str(body_text),
                in_reply_to: opt_clone(&self.in_reply_to),
                references: opt_clone(&self.references),
                attachments: clone_attachments(&self.attachments),
            },
        )
    }

    /// Takes the attachment at `index` off the draft, if there is one.
    pub fn remove_attachment(&mut self, index: usize)
        ensures
            index < old(self).attachments@.len() ==> final(self).attachments@ == old(
                self,
            ).attachments@.remove(index as int),
            index >= old(self).attachments@.len() ==> final(self).attachments@ == old(
                self,
            ).attachments@,
            final(self).to == old(self).to,
            final(self).subject == old(self).subject,
            final(self).body == old(self).body,
            final(self).mode == old(self).mode,
            final(self).account == old(self).account,
            final(self).from == old(self).from,
            final(self).in_reply_to == old(self).in_reply_to,
            final(self).references == old(self).references,
    {
        if index < self.attachments.len() {
            let _ = self.attachments.remove(index);
        }
    }
}

/// The account that sends an answer to a message of a mailbox: the one that owns the
/// mailbox, else the active one, else the first.
pub open spec fn spec_compose_account(m: AppModelView, mailbox_hash: u64) -> usize {
    match crate::actions::account_of(m, mailbox_hash) {
        Some(a) => a as usize,
        None => match m.active_account {
            Some(a) => a,
            None => 0,
        },
    }
}

impl AppModel {
    /// The account that sends an answer to a message of a mailbox.
    pub fn compose_account(&self, mailbox_hash: u64) -> (a: usize)
        ensures
            a == spec_compose_account(self@, mailbox_hash),
    {
        match self.account_for_mailbox(mailbox_hash) {
            Some(a) => a,
            None => match self.active_account {
                Some(a) => a,
                None => 0,
            },
        }
    }

    /// Opens the compose dialog, unless a dialog is open already; tells whether it did.
    pub fn begin_compose(&mut self) -> (opened: bool)
        ensures
            opened == !(old(self)@.show_setup_dialog || old(self)@.show_compose_dialog),
            opened ==> final(self)@ == (AppModelView {
                show_compose_dialog: true,
                is_sending: false,
                ..old(self)@
            }),
            !opened ==> final(self)@ == old(self)@,
    {
        if self.show_setup_dialog || self.show_compose_dialog {
            return false;
        }
        self.show_compose_dialog = true;
        self.is_sending = false;
        true
    }

    /// A checked draft goes out: the dialog shows that it is being sent.
    pub fn send_started(&mut self)
        ensures
            final(self)@ == (AppModelView { is_sending: true, ..old(self)@ }),
    {
        self.is_sending = true;
    }

    /// The user closes the compose dialog.
    pub fn compose_cancel(&mut self)
        ensures
            final(self)@ == (AppModelView {
                show_compose_dialog: false,
                is_sending: false,
                ..old(self)@
            }),
    {
        self.show_compose_dialog = false;
        self.is_sending = false;
    }

    /// Sending ended. After a success the dialog closes; after a failure it stays open
    /// and the text to show in it is handed out.
    pub fn send_complete(&mut self, result: Result<(), String>) -> (fault: Option<String>)
        ensures
            match result {
                Ok(_) => fault is None && final(self)@ == (AppModelView {
                    show_compose_dialog: false,
                    is_sending: false,
                    status_message: "Message sent"@,
                    ..old(self)@
                }),
                Err(e) => opt_view(fault) == Some("Send failed: "@ + e@) && final(self)@ == (
                AppModelView { is_sending: false, ..old(self)@ }),
            },
    {
        match result {
            Ok(_) => {
                self.show_compose_dialog = false;
                self.is_sending = false;
                self.status_message = String::from_str("Message sent");
                None
            },
            Err(e) => {
                self.is_sending = false;
                Some(text_and_text("Send failed: ", e.as_str()))
            },
        }
    }
}

} // verus!
