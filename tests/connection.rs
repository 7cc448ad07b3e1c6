use nrql::connection::{config_path, Account, Config, ConfigLookup, Connection, ResolveError, DEFAULT_URL};

fn s(t: &str) -> String {
    t.to_string()
}

fn prod_config(url: Option<String>) -> Config {
    Config {
        default: Some(s("prod")),
        accounts: Some(vec![(s("prod"), Account { account_id: s("1"), api_key: s("k"), url })]),
    }
}

#[test]
fn flags_with_both_credentials_win() {
    let c = Connection::from_flags(Some(s("7")), Some(s("key")), None).unwrap().unwrap();
    assert_eq!(c.account_id, "7");
    assert_eq!(c.api_key, "key");
    assert_eq!(c.url, DEFAULT_URL);
    let c = Connection::from_flags(Some(s("7")), Some(s("key")), Some(s("http://h/"))).unwrap().unwrap();
    assert_eq!(c.url, "http://h/");
}

#[test]
fn flags_with_one_credential_fail() {
    assert!(matches!(Connection::from_flags(Some(s("7")), None, None), Err(ResolveError::InvalidArguments)));
    assert!(matches!(Connection::from_flags(None, Some(s("k")), None), Err(ResolveError::InvalidArguments)));
}

#[test]
fn flags_with_no_credentials_defer_to_config() {
    assert!(matches!(Connection::from_flags(None, None, Some(s("u"))), Ok(None)));
}

#[test]
fn default_account_from_config() {
    let c = Connection::from_config(ConfigLookup::Loaded(prod_config(None)), None).unwrap();
    assert_eq!(c.account_id, "1");
    assert_eq!(c.api_key, "k");
    assert_eq!(c.url, "https://insights-api.newrelic.com/");
}

#[test]
fn account_url_overrides_default() {
    let c = Connection::from_config(ConfigLookup::Loaded(prod_config(Some(s("https://eu/")))), None).unwrap();
    assert_eq!(c.url, "https://eu/");
}

#[test]
fn explicit_account_key_beats_default() {
    let mut config = prod_config(None);
    config.accounts.as_mut().unwrap().push((s("dev"), Account { account_id: s("2"), api_key: s("d"), url: None }));
    let c = Connection::from_config(ConfigLookup::Loaded(config), Some(s("dev"))).unwrap();
    assert_eq!(c.account_id, "2");
    assert_eq!(c.api_key, "d");
}

#[test]
fn config_errors() {
    assert!(matches!(Connection::from_config(ConfigLookup::NoHomeDir, None), Err(ResolveError::HomeDirNotFound)));
    match Connection::from_config(ConfigLookup::Missing(s("/h/.insights.yaml")), None) {
        Err(ResolveError::ConfigNotFound(p)) => assert_eq!(p, "/h/.insights.yaml"),
        other => panic!("unexpected {:?}", other),
    }
    match Connection::from_config(ConfigLookup::Unparsable(s("bad yaml")), None) {
        Err(ResolveError::ConfigParseError(m)) => assert_eq!(m, "bad yaml"),
        other => panic!("unexpected {:?}", other),
    }
    let no_default = Config { default: None, accounts: prod_config(None).accounts };
    assert!(matches!(Connection::from_config(ConfigLookup::Loaded(no_default), None), Err(ResolveError::NoAccountSpecified)));
    match Connection::from_config(ConfigLookup::Loaded(prod_config(None)), Some(s("qa"))) {
        Err(ResolveError::UnknownAccount(k)) => assert_eq!(k, "qa"),
        other => panic!("unexpected {:?}", other),
    }
    let no_accounts = Config { default: Some(s("prod")), accounts: None };
    assert!(matches!(Connection::from_config(ConfigLookup::Loaded(no_accounts), None), Err(ResolveError::UnknownAccount(_))));
}

#[test]
fn config_path_under_home() {
    assert_eq!(config_path("/home/u"), "/home/u/.insights.yaml");
}
