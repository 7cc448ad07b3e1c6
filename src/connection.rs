//! Choosing the account, API key and base URL of a session: from explicit
//! flags, or else from the account registry in the user's config file.
use vstd::prelude::*;

verus! {

/// The base URL used when neither a flag nor the account entry gives one.
pub const DEFAULT_URL: &'static str = "https://insights-api.newrelic.com/";

/// The config file's path relative to the home directory.
pub const CONFIG_FILE: &'static str = "/.insights.yaml";

/// One named credential set of the registry.
#[derive(Debug)]
pub struct Account {
    pub account_id: String,
    pub api_key: String,
    pub url: Option<String>,
}

/// The account registry: an optional default key and the named accounts.
/// Account keys are distinct in a registry read from a file; where a key
/// repeats, its first entry counts.
#[derive(Debug)]
pub struct Config {
    pub default: Option<String>,
    pub accounts: Option<Vec<(String, Account)>>,
}

/// The resolved credentials of a query session.
#[derive(Debug)]
pub struct Connection {
    pub account_id: String,
    pub api_key: String,
    pub url: String,
}

/// Why no connection could be resolved.
#[derive(Debug)]
pub enum ResolveError {
    /// Only one of account id and API key was given.
    InvalidArguments,
    /// There is no home directory to look for the config file in.
    HomeDirNotFound,
    /// The config file at this path does not exist.
    ConfigNotFound(String),
    /// The config file could not be read as a registry; the parser's message.
    ConfigParseError(String),
    /// Neither an account key nor a default account was given.
    NoAccountSpecified,
    /// The registry has no account under this key.
    UnknownAccount(String),
}

/// What looking for the config file found.
#[derive(Debug)]
pub enum ConfigLookup {
    NoHomeDir,
    Missing(String),
    Unparsable(String),
    Loaded(Config),
}

pub open spec fn url_or_default(url: Option<String>) -> Seq<char> {
    match url {
        Some(u) => u@,
        None => DEFAULT_URL@,
    }
}

/// The first account entry under `key`.
pub open spec fn account_entry(accounts: Seq<(String, Account)>, key: Seq<char>) -> Option<Account>
    decreases accounts.len(),
{
    if accounts.len() == 0 {
        None
    } else if accounts[0].0@ == key {
        Some(accounts[0].1)
    } else {
        account_entry(accounts.subrange(1, accounts.len() as int), key)
    }
}

pub open spec fn accounts_of(config: Config) -> Seq<(String, Account)> {
    match config.accounts {
        Some(a) => a@,
        None => seq![],
    }
}

/// The account key in effect: the explicit one, else the registry's default.
pub open spec fn chosen_key(account_key: Option<String>, config: Config) -> Option<Seq<char>> {
    match account_key {
        Some(k) => Some(k@),
        None => match config.default {
            Some(d) => Some(d@),
            None => None,
        },
    }
}

/// Whether `c` carries exactly these credentials.
pub open spec fn connects(c: Connection, account_id: Seq<char>, api_key: Seq<char>, url: Seq<char>) -> bool {
    c.account_id@ == account_id && c.api_key@ == api_key && c.url@ == url
}

/// The path of the config file under a home directory.
pub fn config_path(home: &str) -> (r: String)
    ensures
        r@ == home@ + CONFIG_FILE@,
{
    let mut p = String::from_str(home);
    p.append(CONFIG_FILE);
    p
}

fn find_account<'a>(accounts: &'a Vec<(String, Account)>, key: &String) -> (r: Option<&'a Account>)
    ensures
        match r {
            Some(a) => account_entry(accounts@, key@) == Some(*a),
            None => account_entry(accounts@, key@).is_none(),
        },
{
    let mut i: usize = 0;
    assert(accounts@.subrange(0, accounts@.len() as int) =~= accounts@);
    while i < accounts.len()
        invariant
            i <= accounts@.len(),
            account_entry(accounts@, key@) == account_entry(
                accounts@.subrange(i as int, accounts@.len() as int),
                key@,
            ),
        decreases accounts@.len() - i,
    {
        let ghost rest = accounts@.subrange(i as int, accounts@.len() as int);
        assert(rest.subrange(1, rest.len() as int) =~= accounts@.subrange(i + 1, accounts@.len() as int));
        if accounts[i].0 == *key {
            return Some(&accounts[i].1);
        }
        i += 1;
    }
    None
}

fn url_text(url: Option<String>) -> (r: String)
    ensures
        r@ == url_or_default(url),
{
    match url {
        Some(u) => u,
        None => String::from_str(DEFAULT_URL),
    }
}

impl Connection {
    /// Resolves a connection from the flags alone. With both account id and
    /// API key it is `Ok(Some(..))` and the config file is not needed; with
    /// exactly one it fails; with neither it is `Ok(None)`: the config
    /// decides.
    pub fn from_flags(account_id: Option<String>, api_key: Option<String>, url: Option<String>) -> (r: Result<Option<Connection>, ResolveError>)
        ensures
            match r {
                Ok(Some(c)) => account_id.is_some() && api_key.is_some() && connects(
                    c,
                    account_id.unwrap()@,
                    api_key.unwrap()@,
                    url_or_default(url),
                ),
                Ok(None) => account_id.is_none() && api_key.is_none(),
                Err(e) => account_id.is_some() != api_key.is_some() && e
                    == ResolveError::InvalidArguments,
            },
    {
        match (account_id, api_key) {
            (Some(id), Some(key)) => Ok(Some(Connection { account_id: id, api_key: key, url: url_text(url) })),
            (None, None) => Ok(None),
            _ => Err(ResolveError::InvalidArguments),
        }
    }

    /// Resolves a connection from what was found of the config file and the
    /// optional account key: the chosen account's credentials, and its URL or
    /// the default one.
    pub fn from_config(lookup: ConfigLookup, account_key: Option<String>) -> (r: Result<Connection, ResolveError>)
        ensures
            match lookup {
                ConfigLookup::NoHomeDir => r == Err::<Connection, ResolveError>(ResolveError::HomeDirNotFound),
                ConfigLookup::Missing(p) => r == Err::<Connection, ResolveError>(ResolveError::ConfigNotFound(p)),
                ConfigLookup::Unparsable(m) => r == Err::<Connection, ResolveError>(ResolveError::ConfigParseError(m)),
                ConfigLookup::Loaded(config) => match chosen_key(account_key, config) {
                    None => r == Err::<Connection, ResolveError>(ResolveError::NoAccountSpecified),
                    Some(k) => match account_entry(accounts_of(config), k) {
                        None => match r {
                            Err(ResolveError::UnknownAccount(name)) => name@ == k,
                            _ => false,
                        },
                        Some(a) => match r {
                            Ok(c) => connects(c, a.account_id@, a.api_key@, url_or_default(a.url)),
                            Err(_) => false,
                        },
                    },
                },
            },
    {
        let config = match lookup {
            ConfigLookup::NoHomeDir => return Err(ResolveError::HomeDirNotFound),
            ConfigLookup::Missing(p) => return Err(ResolveError::ConfigNotFound(p)),
            ConfigLookup::Unparsable(m) => return Err(ResolveError::ConfigParseError(m)),
            ConfigLookup::Loaded(config) => config,
        };
        let key = match account_key {
            Some(k) => k,
            None => match &config.default {
                Some(d) => d.clone(),
                None => return Err(ResolveError::NoAccountSpecified),
            },
        };
        let found = match &config.accounts {
            Some(accounts) => find_account(accounts, &key),
            None => None,
        };
        match found {
            Some(a) => {
                let url = match &a.url {
                    Some(u) => Some(u.clone()),
                    None => None,
                };
                Ok(Connection { account_id: a.account_id.clone(), api_key: a.api_key.clone(), url: url_text(url) })
            },
            None => Err(ResolveError::UnknownAccount(key)),
        }
    }
}

} // verus!
