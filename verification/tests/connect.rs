use pg_replicate::client::ReplicationClient;
use pg_replicate::connect::{ConnectEnv, PasswordSource};

fn set(text: &str) -> Option<String> {
    Some(text.to_string())
}

fn env() -> ConnectEnv {
    ConnectEnv {
        host: set("db.local"),
        port: set("5432"),
        username: set("me"),
        database: set("shop"),
        password_mode: None,
        password: set("pw"),
        own_cert: None,
    }
}

#[test]
fn settings_with_the_defaults() {
    let env = env();
    assert!(env.is_complete());
    let settings = ReplicationClient::connect_tls_settings(&env);
    assert_eq!(settings.host, "db.local");
    assert_eq!(settings.port, 5432);
    assert_eq!(settings.user, "me");
    assert_eq!(settings.dbname, "shop");
    assert!(matches!(settings.password, PasswordSource::Static(p) if p == "pw"));
    assert!(!settings.own_cert);
}

#[test]
fn password_modes() {
    let with = |mode: &str| ConnectEnv { password_mode: set(mode), password: None, ..env() };
    assert!(!with("static").is_complete());
    assert!(with("azure-dynamic").is_complete());
    let settings = ReplicationClient::connect_tls_settings(&with("azure-dynamic"));
    assert!(matches!(settings.password, PasswordSource::AzureDynamic));
    let settings = ReplicationClient::connect_tls_settings(&with("other"));
    assert!(matches!(settings.password, PasswordSource::Unset));
}

#[test]
fn a_certificate_of_ones_own() {
    let with = |own: &str| ConnectEnv { own_cert: set(own), ..env() };
    assert!(ReplicationClient::connect_tls_settings(&with("true")).own_cert);
    assert!(!ReplicationClient::connect_tls_settings(&with("false")).own_cert);
    assert!(!with("yes").is_complete());
}

#[test]
fn incomplete_environments() {
    assert!(!ConnectEnv { host: None, ..env() }.is_complete());
    assert!(!ConnectEnv { port: None, ..env() }.is_complete());
    assert!(!ConnectEnv { port: set("65536"), ..env() }.is_complete());
    assert!(!ConnectEnv { port: set(""), ..env() }.is_complete());
    assert!(!ConnectEnv { username: None, ..env() }.is_complete());
    assert!(!ConnectEnv { database: None, ..env() }.is_complete());
    assert!(!ConnectEnv { password: None, ..env() }.is_complete());
}
