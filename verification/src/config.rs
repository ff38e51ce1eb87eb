use crate::model::{
    no_overrides, AccountConfig, AccountConfigView, SmtpOverrides, SmtpOverridesView,
};
use crate::seqs::view_all;
use crate::text::spec_decimal;
use crate::text::{
    chars_of, list_items, opt_view, parse_u64, spec_list_items, spec_parse_u64, str_eq,
    text_and_text, three_texts,
};
use vstd::prelude::*;
use vstd::string::*;

verus! {

/// The configuration in use. The password is held in the clear.
#[derive(Debug, Clone)]
pub struct Config {
    pub imap_server: String,
    pub imap_port: u16,
    pub username: String,
    pub password: String,
    pub use_starttls: bool,
    pub email_addresses: Vec<String>,
}

/// The configuration in use, as plain values.
pub struct ConfigView {
    pub imap_server: Seq<char>,
    pub imap_port: u16,
    pub username: Seq<char>,
    pub password: Seq<char>,
    pub use_starttls: bool,
    pub email_addresses: Seq<Seq<char>>,
}

impl View for Config {
    type V = ConfigView;

    open spec fn view(&self) -> ConfigView {
        ConfigView {
            imap_server: self.imap_server@,
            imap_port: self.imap_port,
            username: self.username@,
            password: self.password@,
            use_starttls: self.use_starttls,
            email_addresses: view_all(self.email_addresses@),
        }
    }
}

/// Where the password of a stored configuration is kept.
#[derive(Debug, Clone)]
pub enum PasswordBackend {
    /// In the keyring of the system.
    Keyring,
    /// In the configuration file itself.
    Plaintext { value: String },
}

/// The configuration as it is stored on disk.
#[derive(Debug, Clone)]
pub struct FileConfig {
    pub server: String,
    pub port: u16,
    pub username: String,
    pub starttls: bool,
    pub password: PasswordBackend,
    pub email_addresses: Vec<String>,
}

/// How mail is sent: derived from the configuration for receiving.
#[derive(Debug, Clone)]
pub struct SmtpConfig {
    pub server: String,
    pub port: u16,
    pub username: String,
    pub password: String,
    pub use_starttls: bool,
}

/// What the setup dialog has to ask for when no configuration can be put together.
#[derive(Debug, Clone)]
pub enum ConfigNeedsInput {
    /// There is no stored configuration: everything is asked for.
    FullSetup,
    /// There is one, but its password is not to be had: only the password is asked for.
    PasswordOnly { server: String, port: u16, username: String, starttls: bool, error: Option<String> },
}

/// What the setup dialog has to ask for, as plain values.
pub enum ConfigNeedsInputView {
    FullSetup,
    PasswordOnly {
        server: Seq<char>,
        port: u16,
        username: Seq<char>,
        starttls: bool,
        error: Option<Seq<char>>,
    },
}

impl View for ConfigNeedsInput {
    type V = ConfigNeedsInputView;

    open spec fn view(&self) -> ConfigNeedsInputView {
        match self {
            ConfigNeedsInput::FullSetup => ConfigNeedsInputView::FullSetup,
            ConfigNeedsInput::PasswordOnly { server, port, username, starttls, error } => ConfigNeedsInputView::PasswordOnly {
                server: server@,
                port: *port,
                username: username@,
                starttls: *starttls,
                error: opt_view(*error),
            },
        }
    }
}

/// The port for receiving mail where none is given.
pub const DEFAULT_IMAP_PORT: u16 = 993;

/// The port for sending mail where none is given.
pub const DEFAULT_SMTP_PORT: u16 = 587;

/// The port that a text names: a decimal number of at most 16 bits.
pub open spec fn spec_port(text: Seq<char>) -> Option<u16> {
    match spec_parse_u64(text) {
        Some(v) => if v <= u16::MAX {
            Some(v as u16)
        } else {
            None
        },
        None => None,
    }
}

/// The port that an optional text names, or the fallback where there is no text or it
/// names no port.
pub open spec fn port_or(text: Option<Seq<char>>, fallback: u16) -> u16 {
    match text {
        Some(t) => match spec_port(t) {
            Some(p) => p,
            None => fallback,
        },
        None => fallback,
    }
}

/// Reads a port from a text.
pub fn parse_port(text: &str) -> (r: Option<u16>)
    ensures
        r == spec_port(text@),
{
    let chars = chars_of(text);
    assert(chars@.subrange(0, chars.len() as int) =~= text@);
    match parse_u64(&chars, 0, chars.len()) {
        Ok(v) => if v <= 65535 {
            Some(v as u16)
        } else {
            None
        },
        Err(_) => None,
    }
}

fn port_from(text: &Option<String>, fallback: u16) -> (p: u16)
    ensures
        p == port_or(opt_view(*text), fallback),
{
    match text {
        Some(t) => match parse_port(t.as_str()) {
            Some(p) => p,
            None => fallback,
        },
        None => fallback,
    }
}

/// Copies a list of texts.
pub fn clone_texts(v: &Vec<String>) -> (r: Vec<String>)
    ensures
        view_all(r@) == view_all(v@),
{
    let mut r: Vec<String> = Vec::new();
    let mut i: usize = 0;
    while i < v.len()
        invariant
            i <= v.len(),
            r.len() == i,
            forall|j: int| 0 <= j < i ==> r@[j]@ == v@[j]@,
        decreases v.len() - i,
    {
        r.push(v[i].clone());
        i = i + 1;
    }
    assert(view_all(r@) =~= view_all(v@));
    r
}

/// The configuration that the variables of the environment give, which are handed over
/// as they were read, or nothing where server, user or password is missing.
pub open spec fn spec_from_env(
    server: Option<Seq<char>>,
    user: Option<Seq<char>>,
    password: Option<Seq<char>>,
    port: Option<Seq<char>>,
    starttls: Option<Seq<char>>,
    from: Option<Seq<char>>,
) -> Option<ConfigView> {
    if server is Some && user is Some && password is Some {
        Some(
            ConfigView {
                imap_server: server->0,
                imap_port: port_or(port, DEFAULT_IMAP_PORT),
                username: user->0,
                password: password->0,
                use_starttls: starttls is Some && (starttls->0 == "true"@ || starttls->0 == "1"@),
                email_addresses: match from {
                    Some(f) => spec_list_items(f),
                    None => Seq::empty(),
                },
            },
        )
    } else {
        None
    }
}

/// The view of an optional configuration.
pub open spec fn opt_config_view(c: Option<Config>) -> Option<ConfigView> {
    match c {
        Some(c) => Some(c@),
        None => None,
    }
}

/// The view of what resolving gives.
pub open spec fn resolved_view(r: Result<Config, ConfigNeedsInput>) -> Result<
    ConfigView,
    ConfigNeedsInputView,
> {
    match r {
        Ok(c) => Ok(c@),
        Err(n) => Err(n@),
    }
}

/// The configuration that a stored one gives with its password.
pub open spec fn spec_from_file_config(fc: FileConfig, password: Seq<char>) -> ConfigView {
    ConfigView {
        imap_server: fc.server@,
        imap_port: fc.port,
        username: fc.username@,
        password: password,
        use_starttls: fc.starttls,
        email_addresses: view_all(fc.email_addresses@),
    }
}

/// What resolving gives. The environment goes first; then the stored configuration,
/// with the password from the file or from the keyring; a keyring that does not give
/// the password leads to a request for the password alone, and a missing or unreadable
/// file to a full setup.
pub open spec fn spec_resolve(
    env: Option<Config>,
    file: Result<Option<FileConfig>, String>,
    keyring: Result<String, String>,
) -> Result<ConfigView, ConfigNeedsInputView> {
    match env {
        Some(c) => Ok(c@),
        None => match file {
            Ok(Some(fc)) => match fc.password {
                PasswordBackend::Plaintext { value } => Ok(spec_from_file_config(fc, value@)),
                PasswordBackend::Keyring => match keyring {
                    Ok(pw) => Ok(spec_from_file_config(fc, pw@)),
                    Err(e) => Err(
                        ConfigNeedsInputView::PasswordOnly {
                            server: fc.server@,
                            port: fc.port,
                            username: fc.username@,
                            starttls: fc.starttls,
                            error: Some("Keyring unavailable: "@ + e@),
                        },
                    ),
                },
            },
            _ => Err(ConfigNeedsInputView::FullSetup),
        },
    }
}

impl FileConfig {
    /// Whether the password of this configuration is kept in the keyring.
    pub fn wants_keyring(&self) -> (r: bool)
        ensures
            r == (self.password is Keyring),
    {
        match &self.password {
            PasswordBackend::Keyring => true,
            PasswordBackend::Plaintext { .. } => false,
        }
    }
}

impl Config {
    /// The configuration from the values of the environment variables for server, user,
    /// password, port, STARTTLS and sender addresses, each as it was read or `None`
    /// where it is not set.
    pub fn from_env(
        server: Option<String>,
        user: Option<String>,
        password: Option<String>,
        port: Option<String>,
        starttls: Option<String>,
        from: Option<String>,
    ) -> (r: Option<Config>)
        ensures
            opt_config_view(r) == spec_from_env(
                opt_view(server),
                opt_view(user),
                opt_view(password),
                opt_view(port),
                opt_view(starttls),
                opt_view(from),
            ),
    {
        let imap_port = port_from(&port, DEFAULT_IMAP_PORT);
        let use_starttls = match &starttls {
            Some(v) => str_eq(v.as_str(), "true") || str_eq(v.as_str(), "1"),
            None => false,
        };
        let email_addresses = match &from {
            Some(f) => list_items(f.as_str()),
            None => {
                let v: Vec<String> = Vec::new();
                assert(view_all(v@) =~= Seq::empty());
                v
            },
        };
        match (server, user, password) {
            (Some(imap_server), Some(username), Some(password)) => Some(
                Config { imap_server, imap_port, username, password, use_starttls, email_addresses },
            ),
            _ => None,
        }
    }

    /// The configuration in use from a stored one and its password.
    pub fn from_file_config(fc: &FileConfig, password: String) -> (c: Config)
        ensures
            c@ == spec_from_file_config(*fc, password@),
    {
        Config {
            imap_server: fc.server.clone(),
            imap_port: fc.port,
            username: fc.username.clone(),
            password,
            use_starttls: fc.starttls,
            email_addresses: clone_texts(&fc.email_addresses),
        }
    }

    /// Puts the configuration together from what was found: `env` is what the
    /// environment gives, `file` what reading the stored configuration gave, and
    /// `keyring` what the keyring answered for the user and server of the stored
    /// configuration; `keyring` is looked at only where the stored configuration keeps
    /// its password there.
    pub fn resolve(env: Option<Config>, file: Result<Option<FileConfig>, String>, keyring: Result<
        String,
        String,
    >) -> (r: Result<Config, ConfigNeedsInput>)
        ensures
            resolved_view(r) == spec_resolve(env, file, keyring),
    {
        match env {
            Some(c) => Ok(c),
            None => match file {
                Ok(Some(fc)) => match &fc.password {
                    PasswordBackend::Plaintext { value } => {
                        let pw = value.clone();
                        Ok(Config::from_file_config(&fc, pw))
                    },
                    PasswordBackend::Keyring => match keyring {
                        Ok(pw) => Ok(Config::from_file_config(&fc, pw)),
                        Err(e) => Err(
                            ConfigNeedsInput::PasswordOnly {
                                server: fc.server,
                                port: fc.port,
                                username: fc.username,
                                starttls: fc.starttls,
                                error: Some(text_and_text("Keyring unavailable: ", e.as_str())),
                            },
                        ),
                    },
                },
                _ => Err(ConfigNeedsInput::FullSetup),
            },
        }
    }
}

impl SmtpConfig {
    /// The configuration for sending: server and port from the environment where it
    /// names them, else the server for receiving and the default port; user and password
    /// as for receiving; STARTTLS always.
    pub fn from_imap_config(config: &Config, env_server: Option<String>, env_port: Option<String>) -> (s:
        SmtpConfig)
        ensures
            s.server@ == (match env_server {
                Some(v) => v@,
                None => config.imap_server@,
            }),
            s.port == port_or(opt_view(env_port), DEFAULT_SMTP_PORT),
            s.username@ == config.username@,
            s.password@ == config.password@,
            s.use_starttls,
    {
        let server = match env_server {
            Some(v) => v,
            None => config.imap_server.clone(),
        };
        SmtpConfig {
            server,
            port: port_from(&env_port, DEFAULT_SMTP_PORT),
            username: config.username.clone(),
            password: config.password.clone(),
            use_starttls: true,
        }
    }
}

/// The settings for sending of an account as they are stored: the password is in the
/// keyring or in the file.
#[derive(Debug, Clone)]
pub struct StoredSmtp {
    pub server: Option<String>,
    pub port: Option<u16>,
    pub username: Option<String>,
    pub password: Option<PasswordBackend>,
    pub use_starttls: Option<bool>,
}

/// One account as it is stored, with its id and label.
#[derive(Debug, Clone)]
pub struct StoredAccount {
    pub id: String,
    pub label: String,
    pub config: FileConfig,
    pub smtp: StoredSmtp,
}

/// What the keyring answered for the two passwords of a stored account. An answer is
/// looked at only where the account keeps that password in the keyring.
#[derive(Debug, Clone)]
pub struct KeyringAnswer {
    pub imap: Result<String, String>,
    pub smtp: Result<String, String>,
}

impl StoredSmtp {
    /// Whether the password for sending is kept in the keyring.
    pub fn wants_keyring(&self) -> (r: bool)
        ensures
            r == (self.password == Some(PasswordBackend::Keyring)),
    {
        match &self.password {
            Some(PasswordBackend::Keyring) => true,
            _ => false,
        }
    }
}

/// The name under which the keyring holds the password for sending of an account.
pub open spec fn spec_smtp_key_id(account_id: Seq<char>) -> Seq<char> {
    "smtp:"@ + account_id
}

/// The name under which the keyring holds the password for sending of an account.
pub fn smtp_key_id(account_id: &str) -> (s: String)
    ensures
        s@ == spec_smtp_key_id(account_id@),
{
    text_and_text("smtp:", account_id)
}

/// The id of the account that the environment configures.
pub const ENV_ACCOUNT_ID: &'static str = "env";

/// The id under which a stored account runs: its own, or one made of its place in the
/// file where it has none.
pub open spec fn spec_stored_id(a: StoredAccount, place: nat) -> Seq<char> {
    if a.id@.len() == 0 {
        "account-"@ + spec_decimal(place)
    } else {
        a.id@
    }
}

/// The account that a configuration gives under an id and a label; an empty label is
/// replaced by the user name.
pub open spec fn spec_account_of(
    id: Seq<char>,
    label: Seq<char>,
    c: ConfigView,
    smtp: SmtpOverridesView,
) -> AccountConfigView {
    AccountConfigView {
        id: id,
        label: if label.len() == 0 {
            c.username
        } else {
            label
        },
        imap_server: c.imap_server,
        imap_port: c.imap_port,
        username: c.username,
        password: c.password,
        use_starttls: c.use_starttls,
        email_addresses: c.email_addresses,
        smtp_overrides: smtp,
    }
}

/// The settings for sending that stored ones give. A password that is kept in the
/// keyring is the one that the keyring answered, and none where it answered none.
pub open spec fn spec_stored_smtp(s: StoredSmtp, answer: Result<String, String>) -> SmtpOverridesView {
    SmtpOverridesView {
        server: opt_view(s.server),
        port: s.port,
        username: opt_view(s.username),
        password: match s.password {
            None => None,
            Some(PasswordBackend::Plaintext { value }) => Some(value@),
            Some(PasswordBackend::Keyring) => match answer {
                Ok(p) => Some(p@),
                Err(_) => None,
            },
        },
        use_starttls: s.use_starttls,
    }
}

/// What a stored account at a place in the file gives with the answers of the keyring:
/// the account, or the request for its password where the keyring did not give it.
pub open spec fn spec_resolve_stored(a: StoredAccount, place: nat, answer: KeyringAnswer) -> Result<
    AccountConfigView,
    ConfigNeedsInputView,
> {
    match spec_resolve(None, Ok(Some(a.config)), answer.imap) {
        Ok(c) => Ok(
            spec_account_of(
                spec_stored_id(a, place),
                a.label@,
                c,
                spec_stored_smtp(a.smtp, answer.smtp),
            ),
        ),
        Err(needs) => Err(needs),
    }
}

/// The accounts that the stored ones give, in their order; an account whose password
/// is not to be had is left out.
pub open spec fn spec_resolve_list(stored: Seq<(StoredAccount, KeyringAnswer)>) -> Seq<
    AccountConfigView,
>
    decreases stored.len(),
{
    if stored.len() == 0 {
        Seq::empty()
    } else {
        let rest = spec_resolve_list(stored.drop_last());
        match spec_resolve_stored(
            stored.last().0,
            (stored.len() - 1) as nat,
            stored.last().1,
        ) {
            Ok(c) => rest.push(c),
            Err(_) => rest,
        }
    }
}

/// The accounts to start with. The environment goes first and gives one account. Else
/// the stored accounts count, each with its password; one whose password the keyring
/// does not give is left out, unless it is the only one, which leads to the request for
/// its password. A missing or unreadable file leads to a full setup.
pub open spec fn spec_resolve_accounts(
    env: Option<Config>,
    stored: Result<Option<Vec<(StoredAccount, KeyringAnswer)>>, String>,
) -> Result<Seq<AccountConfigView>, ConfigNeedsInputView> {
    match env {
        Some(c) => Ok(seq![spec_account_of(ENV_ACCOUNT_ID@, Seq::empty(), c@, no_overrides())]),
        None => match stored {
            Ok(Some(list)) => if list@.len() == 1 && spec_resolve_stored(
                list@[0].0,
                0,
                list@[0].1,
            ) is Err {
                Err(spec_resolve_stored(list@[0].0, 0, list@[0].1)->Err_0)
            } else {
                Ok(spec_resolve_list(list@))
            },
            _ => Err(ConfigNeedsInputView::FullSetup),
        },
    }
}

/// The view of what resolving the accounts gives.
pub open spec fn accounts_view(r: Result<Vec<AccountConfig>, ConfigNeedsInput>) -> Result<
    Seq<AccountConfigView>,
    ConfigNeedsInputView,
> {
    match r {
        Ok(list) => Ok(view_all(list@)),
        Err(n) => Err(n@),
    }
}

/// The view of what resolving one account gives.
pub open spec fn account_view(r: Result<AccountConfig, ConfigNeedsInput>) -> Result<
    AccountConfigView,
    ConfigNeedsInputView,
> {
    match r {
        Ok(c) => Ok(c@),
        Err(n) => Err(n@),
    }
}

/// The account that a configuration gives under an id and a label.
pub fn account_of(id: String, label: &str, c: Config, smtp: SmtpOverrides) -> (a: AccountConfig)
    ensures
        a@ == spec_account_of(id@, label@, c@, smtp@),
{
    let label = if label.is_empty() {
        c.username.clone()
    } else {
        String::from_str(label)
    };
    AccountConfig {
        id,
        label,
        imap_server: c.imap_server,
        imap_port: c.imap_port,
        username: c.username,
        password: c.password,
        use_starttls: c.use_starttls,
        email_addresses: c.email_addresses,
        smtp_overrides: smtp,
    }
}

fn stored_smtp(s: &StoredSmtp, answer: &Result<String, String>) -> (o: SmtpOverrides)
    ensures
        o@ == spec_stored_smtp(*s, *answer),
{
    let password = match &s.password {
        None => None,
        Some(PasswordBackend::Plaintext { value }) => Some(value.clone()),
        Some(PasswordBackend::Keyring) => match answer {
            Ok(p) => Some(p.clone()),
            Err(_) => None,
        },
    };
    SmtpOverrides {
        server: crate::text::opt_clone(&s.server),
        port: s.port,
        username: crate::text::opt_clone(&s.username),
        password,
        use_starttls: s.use_starttls,
    }
}

/// Resolves one stored account at a place in the file with the answers of the keyring.
pub fn resolve_stored(a: &StoredAccount, place: usize, answer: &KeyringAnswer) -> (r: Result<
    AccountConfig,
    ConfigNeedsInput,
>)
    ensures
        account_view(r) == spec_resolve_stored(*a, place as nat, *answer),
{
    let password = match &a.config.password {
        PasswordBackend::Plaintext { value } => value.clone(),
        PasswordBackend::Keyring => match &answer.imap {
            Ok(p) => p.clone(),
            Err(e) => {
                return Err(
                    ConfigNeedsInput::PasswordOnly {
                        server: a.config.server.clone(),
                        port: a.config.port,
                        username: a.config.username.clone(),
                        starttls: a.config.starttls,
                        error: Some(text_and_text("Keyring unavailable: ", e.as_str())),
                    },
                );
            },
        },
    };
    let id = if a.id.as_str().is_empty() {
        crate::text::text_and_number("account-", place as u64)
    } else {
        a.id.clone()
    };
    let c = Config::from_file_config(&a.config, password);
    Ok(account_of(id, a.label.as_str(), c, stored_smtp(&a.smtp, &answer.smtp)))
}

/// Puts together the accounts to start with from what the environment gives and from
/// the stored accounts, each with what the keyring answered for it.
pub fn resolve_accounts(
    env: Option<Config>,
    stored: Result<Option<Vec<(StoredAccount, KeyringAnswer)>>, String>,
) -> (r: Result<Vec<AccountConfig>, ConfigNeedsInput>)
    ensures
        accounts_view(r) == spec_resolve_accounts(env, stored),
{
    match env {
        Some(c) => {
            let mut out: Vec<AccountConfig> = Vec::new();
            out.push(account_of(String::from_str(ENV_ACCOUNT_ID), "", c, SmtpOverrides::none()));
            proof {
                reveal_strlit("");
                assert(""@ =~= Seq::<char>::empty());
                assert(view_all(out@) =~= seq![
                    spec_account_of(ENV_ACCOUNT_ID@, Seq::empty(), c@, no_overrides()),
                ]);
            }
            return Ok(out);
        },
        None => {},
    }
    let list = match &stored {
        Ok(Some(list)) => list,
        _ => {
            return Err(ConfigNeedsInput::FullSetup);
        },
    };
    let ghost pairs = list@;
    let mut out: Vec<AccountConfig> = Vec::new();
    let mut i: usize = 0;
    proof {
        assert(pairs.take(0) =~= Seq::<(StoredAccount, KeyringAnswer)>::empty());
        assert(view_all(out@) =~= spec_resolve_list(pairs.take(0)));
    }
    while i < list.len()
        invariant
            i <= list.len(),
            pairs == list@,
            env is None,
            stored matches Ok(Some(l)) && l@ == pairs,
            view_all(out@) == spec_resolve_list(pairs.take(i as int)),
            pairs.len() == 1 && i == 1 ==> spec_resolve_stored(pairs[0].0, 0, pairs[0].1) is Ok,
        decreases list.len() - i,
    {
        let ghost before = view_all(out@);
        proof {
            assert(pairs.take(i + 1).drop_last() =~= pairs.take(i as int));
            assert(pairs.take(i + 1).last() == pairs[i as int]);
        }
        match resolve_stored(&list[i].0, i, &list[i].1) {
            Ok(c) => {
                out.push(c);
                assert(view_all(out@) =~= before.push(c@));
            },
            Err(needs) => {
                if list.len() == 1 {
                    return Err(needs);
                }
            },
        }
        i = i + 1;
    }
    proof {
        assert(pairs.take(i as int) =~= pairs);
        if pairs.len() == 1 {
            assert(pairs.take(1).drop_last() =~= pairs.take(0));
            assert(pairs.take(1) =~= pairs);
        }
    }
    Ok(out)
}

/// The name under which the keyring holds the password of a user on a server.
pub open spec fn spec_key_id(username: Seq<char>, server: Seq<char>) -> Seq<char> {
    username + "@"@ + server
}

/// The name under which the keyring holds the password of a user on a server.
pub fn key_id(username: &str, server: &str) -> (s: String)
    ensures
        s@ == spec_key_id(username@, server@),
{
    three_texts(username, "@", server)
}

/// The service under which the keyring holds the passwords.
pub const KEYRING_SERVICE: &'static str = "nevermail";

} // verus!
