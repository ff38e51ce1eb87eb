use nevermail::body::{next_body_step, BodyStep};
use nevermail::commands::CacheCmd;
use nevermail::config::{
    key_id, parse_port, resolve_accounts, smtp_key_id, Config, ConfigNeedsInput, FileConfig,
    KeyringAnswer, PasswordBackend, SmtpConfig, StoredAccount, StoredSmtp, KEYRING_SERVICE,
};
use nevermail::store::CachedBody;
use nevermail::mime::{
    clean_email_html, html_to_render, markdown_body_from, plain_body_from, semantic_tags,
};
use nevermail::model::{AccountConfig, AppModel, SmtpOverrides};
use nevermail::text::{char_is_whitespace, decimal, list_items, trimmed};

fn stored(password: PasswordBackend) -> FileConfig {
    FileConfig {
        server: "mail.example.com".to_string(),
        port: 143,
        username: "me".to_string(),
        starttls: true,
        password,
        email_addresses: vec!["me@example.com".to_string()],
    }
}

fn from_env_config() -> Config {
    Config::from_env(
        Some("env.example.com".to_string()),
        Some("envuser".to_string()),
        Some("envpw".to_string()),
        None,
        None,
        None,
    )
    .unwrap()
}

#[test]
fn decimal_notation() {
    assert_eq!(decimal(0), "0");
    assert_eq!(decimal(7), "7");
    assert_eq!(decimal(10), "10");
    assert_eq!(decimal(1234567890), "1234567890");
    assert_eq!(decimal(u64::MAX), "18446744073709551615");
}

#[test]
fn ports_are_sixteen_bit_numbers() {
    assert_eq!(parse_port("993"), Some(993));
    assert_eq!(parse_port("+993"), Some(993));
    assert_eq!(parse_port("0"), Some(0));
    assert_eq!(parse_port("65535"), Some(65535));
    assert_eq!(parse_port("65536"), None);
    assert_eq!(parse_port(""), None);
    assert_eq!(parse_port("99999999999999999999999"), None);
    assert_eq!(parse_port(" 993"), None);
    assert_eq!(parse_port("-1"), None);
    for text in ["993", "+1", "65536", "", "x", "00080", "+", "1 "] {
        assert_eq!(parse_port(text), text.parse::<u16>().ok());
    }
}

#[test]
fn lists_and_trimming() {
    assert_eq!(list_items("a@b, c@d ,, e"), vec!["a@b", "c@d", "e"]);
    assert!(list_items("").is_empty());
    assert!(list_items(" , ,").is_empty());
    assert_eq!(list_items("one"), vec!["one"]);
    assert_eq!(trimmed("  \t x y \n"), "x y");
    assert_eq!(trimmed("\u{a0}x\u{3000}"), "x");
    assert_eq!(trimmed(""), "");
    let white: Vec<char> = (0..=0xFFFFu32)
        .filter_map(char::from_u32)
        .filter(|c| trimmed(&format!("{c}x{c}")) == "x")
        .collect();
    assert_eq!(white.len(), 25);
    assert!(white.iter().all(|c| c.is_whitespace()));
    assert!((0..=0x10FFFFu32)
        .filter_map(char::from_u32)
        .all(|c| char_is_whitespace(c) == c.is_whitespace()));
    assert_eq!(trimmed("\u{1F600} x \u{E0020}"), "\u{1F600} x \u{E0020}");
    for text in ["a, b", ",", "a,,b,", "  ", "x , y"] {
        let expected: Vec<String> =
            text.split(',').map(|s| s.trim().to_string()).filter(|s| !s.is_empty()).collect();
        assert_eq!(list_items(text), expected);
    }
}

#[test]
fn config_from_environment() {
    assert!(Config::from_env(None, Some("u".into()), Some("p".into()), None, None, None).is_none());
    assert!(Config::from_env(Some("s".into()), None, Some("p".into()), None, None, None).is_none());
    assert!(Config::from_env(Some("s".into()), Some("u".into()), None, None, None, None).is_none());
    let c = from_env_config();
    assert_eq!(c.imap_server, "env.example.com");
    assert_eq!(c.imap_port, 993);
    assert!(!c.use_starttls);
    assert!(c.email_addresses.is_empty());
    let c = Config::from_env(
        Some("s".into()),
        Some("u".into()),
        Some("p".into()),
        Some("143".into()),
        Some("1".into()),
        Some("a@b, c@d".into()),
    )
    .unwrap();
    assert_eq!(c.imap_port, 143);
    assert!(c.use_starttls);
    assert_eq!(c.email_addresses, vec!["a@b", "c@d"]);
    let c = Config::from_env(
        Some("s".into()),
        Some("u".into()),
        Some("p".into()),
        Some("port".into()),
        Some("true".into()),
        None,
    )
    .unwrap();
    assert_eq!(c.imap_port, 993);
    assert!(c.use_starttls);
    let c = Config::from_env(
        Some("s".into()),
        Some("u".into()),
        Some("p".into()),
        None,
        Some("yes".into()),
        None,
    )
    .unwrap();
    assert!(!c.use_starttls);
}

#[test]
fn config_from_file() {
    let fc = stored(PasswordBackend::Keyring);
    assert!(fc.wants_keyring());
    let c = Config::from_file_config(&fc, "pw".to_string());
    assert_eq!(c.imap_server, "mail.example.com");
    assert_eq!(c.imap_port, 143);
    assert_eq!(c.username, "me");
    assert_eq!(c.password, "pw");
    assert!(c.use_starttls);
    assert_eq!(c.email_addresses, vec!["me@example.com"]);
    assert!(!stored(PasswordBackend::Plaintext { value: "x".into() }).wants_keyring());
}

#[test]
fn resolve_order() {
    let from_env = Config::resolve(
        Some(from_env_config()),
        Ok(Some(stored(PasswordBackend::Plaintext { value: "filepw".into() }))),
        Ok("ringpw".to_string()),
    )
    .unwrap();
    assert_eq!(from_env.password, "envpw");

    let plain = Config::resolve(
        None,
        Ok(Some(stored(PasswordBackend::Plaintext { value: "filepw".into() }))),
        Err("no keyring".to_string()),
    )
    .unwrap();
    assert_eq!(plain.password, "filepw");
    assert_eq!(plain.username, "me");

    let ring = Config::resolve(None, Ok(Some(stored(PasswordBackend::Keyring))), Ok("ringpw".into()))
        .unwrap();
    assert_eq!(ring.password, "ringpw");

    match Config::resolve(None, Ok(Some(stored(PasswordBackend::Keyring))), Err("locked".into())) {
        Err(ConfigNeedsInput::PasswordOnly { server, port, username, starttls, error }) => {
            assert_eq!(server, "mail.example.com");
            assert_eq!(port, 143);
            assert_eq!(username, "me");
            assert!(starttls);
            assert_eq!(error.as_deref(), Some("Keyring unavailable: locked"));
        }
        _ => panic!("expected a request for the password"),
    }
    assert!(matches!(
        Config::resolve(None, Ok(None), Ok("x".into())),
        Err(ConfigNeedsInput::FullSetup)
    ));
    assert!(matches!(
        Config::resolve(None, Err("unreadable".into()), Ok("x".into())),
        Err(ConfigNeedsInput::FullSetup)
    ));
}

#[test]
fn start_with_incomplete_configuration() {
    let m = AppModel::start_with_setup(false, ConfigNeedsInput::FullSetup);
    assert!(m.show_setup_dialog && !m.password_only_mode);
    assert_eq!(m.status_message, "Setup required \u{2014} enter your account details");
    let m = AppModel::start_with_setup(
        true,
        ConfigNeedsInput::PasswordOnly {
            server: "s".into(),
            port: 1,
            username: "u".into(),
            starttls: false,
            error: Some("Keyring unavailable: x".into()),
        },
    );
    assert!(m.show_setup_dialog && m.password_only_mode);
    assert_eq!(m.setup_error.as_deref(), Some("Keyring unavailable: x"));
    assert_eq!(m.status_message, "Password required");
}

#[test]
fn configured_account_connects() {
    let account = |id: &str, label: &str| AccountConfig {
        id: id.to_string(),
        label: label.to_string(),
        imap_server: "s".to_string(),
        imap_port: 993,
        username: "u".to_string(),
        password: "p".to_string(),
        use_starttls: false,
        email_addresses: vec![],
        smtp_overrides: SmtpOverrides::none(),
    };
    let mut m = AppModel::start_with_setup(true, ConfigNeedsInput::FullSetup);
    let effects = m.account_configured(account("a", "First"), Err("disk full".to_string()));
    assert!(effects.is_empty());
    assert!(m.show_setup_dialog);
    assert_eq!(m.setup_error.as_deref(), Some("Failed to save config: disk full"));
    let effects = m.account_configured(account("a", "First"), Ok(()));
    assert_eq!(effects, vec![nevermail::effects::Effect::Connect { account: 0 }]);
    assert!(!m.show_setup_dialog);
    assert!(m.setup_error.is_none());
    assert_eq!(m.status_message, "First: Connecting...");
    m.account_configured(account("b", "Second"), Ok(()));
    m.accounts[0].has_session = true;
    let effects = m.account_configured(account("a", "Renamed"), Ok(()));
    assert_eq!(effects, vec![nevermail::effects::Effect::Connect { account: 0 }]);
    assert_eq!(m.accounts.len(), 2);
    assert_eq!(m.accounts[0].config.label, "Renamed");
    assert!(!m.accounts[0].has_session);
}

#[test]
fn smtp_follows_imap() {
    let c = from_env_config();
    let s = SmtpConfig::from_imap_config(&c, None, None);
    assert_eq!(s.server, "env.example.com");
    assert_eq!(s.port, 587);
    assert_eq!(s.username, "envuser");
    assert_eq!(s.password, "envpw");
    assert!(s.use_starttls);
    let s = SmtpConfig::from_imap_config(&c, Some("smtp.example.com".into()), Some("2525".into()));
    assert_eq!(s.server, "smtp.example.com");
    assert_eq!(s.port, 2525);
    let s = SmtpConfig::from_imap_config(&c, None, Some("many".into()));
    assert_eq!(s.port, 587);
}

fn kept(id: &str, label: &str, password: PasswordBackend, smtp: Option<PasswordBackend>) -> StoredAccount {
    StoredAccount {
        id: id.to_string(),
        label: label.to_string(),
        config: stored(password),
        smtp: StoredSmtp {
            server: Some("smtp.example.com".to_string()),
            port: Some(2525),
            username: None,
            password: smtp,
            use_starttls: Some(false),
        },
    }
}

fn answers(imap: Result<&str, &str>, smtp: Result<&str, &str>) -> KeyringAnswer {
    KeyringAnswer {
        imap: imap.map(str::to_string).map_err(str::to_string),
        smtp: smtp.map(str::to_string).map_err(str::to_string),
    }
}

#[test]
fn accounts_are_resolved_from_environment_file_and_keyring() {
    let plain = || PasswordBackend::Plaintext { value: "filepw".into() };
    let from_env = resolve_accounts(
        Some(from_env_config()),
        Ok(Some(vec![(kept("a", "A", plain(), None), answers(Err(""), Err("")))])),
    )
    .unwrap();
    assert_eq!(from_env.len(), 1);
    assert_eq!(from_env[0].id, "env");
    assert_eq!(from_env[0].label, "envuser");
    assert_eq!(from_env[0].password, "envpw");
    assert!(from_env[0].smtp_overrides.server.is_none());

    assert!(matches!(resolve_accounts(None, Ok(None)), Err(ConfigNeedsInput::FullSetup)));
    assert!(matches!(
        resolve_accounts(None, Err("unreadable".into())),
        Err(ConfigNeedsInput::FullSetup)
    ));
    assert!(resolve_accounts(None, Ok(Some(vec![]))).unwrap().is_empty());

    let all = resolve_accounts(
        None,
        Ok(Some(vec![
            (kept("", "", plain(), Some(plain())), answers(Err("x"), Err("x"))),
            (kept("work", "Work", PasswordBackend::Keyring, None), answers(Err("locked"), Ok("s"))),
            (
                kept("", "Home", PasswordBackend::Keyring, Some(PasswordBackend::Keyring)),
                answers(Ok("ringpw"), Ok("smtppw")),
            ),
            (
                kept("last", "", PasswordBackend::Keyring, Some(PasswordBackend::Keyring)),
                answers(Ok("pw"), Err("none")),
            ),
        ])),
    )
    .unwrap();
    let ids: Vec<&str> = all.iter().map(|a| a.id.as_str()).collect();
    assert_eq!(ids, vec!["account-0", "account-2", "last"]);
    assert_eq!(all[0].label, "me");
    assert_eq!(all[0].password, "filepw");
    assert_eq!(all[0].smtp_overrides.password.as_deref(), Some("filepw"));
    assert_eq!(all[0].smtp_overrides.server.as_deref(), Some("smtp.example.com"));
    assert_eq!(all[0].smtp_overrides.port, Some(2525));
    assert_eq!(all[0].smtp_overrides.use_starttls, Some(false));
    assert_eq!(all[1].label, "Home");
    assert_eq!(all[1].password, "ringpw");
    assert_eq!(all[1].smtp_overrides.password.as_deref(), Some("smtppw"));
    assert_eq!(all[2].password, "pw");
    assert_eq!(all[2].smtp_overrides.password, None);
    assert_eq!(all[2].imap_server, "mail.example.com");
    assert_eq!(all[2].email_addresses, vec!["me@example.com"]);

    match resolve_accounts(
        None,
        Ok(Some(vec![(kept("only", "", PasswordBackend::Keyring, None), answers(Err("locked"), Err("")))])),
    ) {
        Err(ConfigNeedsInput::PasswordOnly { server, error, .. }) => {
            assert_eq!(server, "mail.example.com");
            assert_eq!(error.as_deref(), Some("Keyring unavailable: locked"));
        }
        _ => panic!("expected a request for the password"),
    }
    assert!(kept("a", "", plain(), Some(PasswordBackend::Keyring)).smtp.wants_keyring());
    assert!(!kept("a", "", plain(), Some(plain())).smtp.wants_keyring());
    assert!(!kept("a", "", plain(), None).smtp.wants_keyring());
}

#[test]
fn requests_that_read_do_not_change_the_cache() {
    let account = || "a".to_string();
    assert!(!CacheCmd::LoadFolders { account: account() }.changes_cache());
    assert!(!CacheCmd::LoadMessages { account: account(), mailbox_hash: 1, limit: 1, offset: 0 }
        .changes_cache());
    assert!(!CacheCmd::MessageCount { account: account(), mailbox_hash: 1 }.changes_cache());
    assert!(!CacheCmd::LoadBody { envelope_hash: 1 }.changes_cache());
    assert!(!CacheCmd::Search { account: account(), query: "q".into(), hits: vec![] }.changes_cache());
    assert!(CacheCmd::SaveFolders { account: account(), folders: vec![] }.changes_cache());
    assert!(CacheCmd::SaveMessages { account: account(), mailbox_hash: 1, messages: vec![] }
        .changes_cache());
    assert!(CacheCmd::UpdateFlags { envelope_hash: 1, flags_local: 1, pending_op: "t".into() }
        .changes_cache());
    assert!(CacheCmd::ConfirmPendingOp { envelope_hash: 1, pending_op: "t".into(), flags_server: 1 }
        .changes_cache());
    assert!(CacheCmd::ClearPendingOp { envelope_hash: 1, flags_server: 1 }.changes_cache());
    assert!(CacheCmd::RevertPendingOp { envelope_hash: 1 }.changes_cache());
    assert!(CacheCmd::RemoveMessage { envelope_hash: 1 }.changes_cache());
    assert!(CacheCmd::RemoveAccount { account: account() }.changes_cache());
    assert!(CacheCmd::SaveBody {
        envelope_hash: 1,
        body_markdown: String::new(),
        body_plain: String::new(),
        attachments: vec![]
    }
    .changes_cache());
}

#[test]
fn body_comes_from_cache_or_server_or_waits() {
    let body = || CachedBody { markdown: "md".into(), plain: "p".into(), attachments: vec![] };
    match next_body_step(true, Ok(Some(body())), false) {
        BodyStep::Show(b) => assert_eq!(b.markdown, "md"),
        _ => panic!("expected the cached body"),
    }
    assert!(matches!(next_body_step(true, Ok(None), true), BodyStep::Fetch { store: true }));
    assert!(matches!(next_body_step(false, Ok(None), true), BodyStep::Fetch { store: false }));
    assert!(matches!(next_body_step(true, Err("x".into()), true), BodyStep::Fetch { store: true }));
    assert!(matches!(next_body_step(true, Ok(None), false), BodyStep::Defer));
    assert!(matches!(next_body_step(true, Err("x".into()), false), BodyStep::Defer));
}

#[test]
fn keyring_names() {
    assert_eq!(smtp_key_id("work"), "smtp:work");
    assert_eq!(key_id("me", "mail.example.com"), "me@mail.example.com");
    assert_eq!(KEYRING_SERVICE, "nevermail");
}

#[test]
fn plain_body_is_chosen() {
    assert_eq!(plain_body_from(Some("plain"), Some(Some("rendered".into()))), "plain");
    assert_eq!(plain_body_from(None, Some(Some("rendered".into()))), "rendered");
    assert_eq!(plain_body_from(None, Some(None)), "");
    assert_eq!(plain_body_from(None, None), "[No displayable content]");
    assert_eq!(markdown_body_from(Some("plain"), Some("md".into())), "md");
    assert_eq!(markdown_body_from(Some("plain"), None), "plain");
    assert_eq!(markdown_body_from(None, None), "[No displayable content]");
}

#[test]
fn bodies_are_rendered() {
    assert_eq!(html_to_render(Some("plain"), Some("<p>html</p>")), None);
    assert_eq!(html_to_render(None, Some("<p>html</p>")), Some("<p>html</p>"));
    assert_eq!(html_to_render(None, None), None);
    assert_eq!(html_to_render(Some("plain"), None), None);

    let clean = clean_email_html(
        "<table><tr><td><p>Hello <strong>world</strong></p><script>alert(1)</script><img src=\"x.png\"></td></tr></table>",
    );
    assert!(clean.contains("<p>Hello <strong>world</strong></p>"));
    assert!(!clean.contains("alert"));
    assert!(!clean.contains("x.png"));
    assert!(!clean.contains("<table"));
    assert!(!clean.contains("<td"));
    assert_eq!(clean_email_html("plain text"), "plain text");
    assert_eq!(clean_email_html("<p></p><b><li></li></b>"), "<p></p><b><li></li></b>");
    let tags = semantic_tags();
    assert_eq!(tags.len(), 26);
    assert!(tags.iter().any(|t| t == "blockquote"));
    assert!(tags.iter().all(|t| t != "table" && t != "img" && t != "script" && t != "style"));
}
