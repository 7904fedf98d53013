//! The settings of a connection, from the environment of the process.

use vstd::prelude::*;

use crate::client::ReplicationClient;
use crate::text::{bool_value, parse_bool, parse_u16, same_text, unsigned_value};

verus! {

/// The variables of the environment that settle a connection, as far as they are set.
pub struct ConnectEnv {
    pub host: Option<String>,
    pub port: Option<String>,
    pub username: Option<String>,
    pub database: Option<String>,
    pub password_mode: Option<String>,
    pub password: Option<String>,
    pub own_cert: Option<String>,
}

/// Where the password comes from.
pub enum PasswordSource {
    /// The password itself.
    Static(String),
    /// A token that is asked for when the connection is made.
    AzureDynamic,
    /// No password is sent.
    Unset,
}

/// Where the password comes from, with the password as a sequence.
pub enum PasswordSourceView {
    Static(Seq<char>),
    AzureDynamic,
    Unset,
}

impl View for PasswordSource {
    type V = PasswordSourceView;

    open spec fn view(&self) -> PasswordSourceView {
        match self {
            PasswordSource::Static(password) => PasswordSourceView::Static(password@),
            PasswordSource::AzureDynamic => PasswordSourceView::AzureDynamic,
            PasswordSource::Unset => PasswordSourceView::Unset,
        }
    }
}

/// The settings of a connection.
pub struct ConnectSettings {
    pub host: String,
    pub port: u16,
    pub user: String,
    pub dbname: String,
    pub password: PasswordSource,
    /// Whether a certificate of one's own is added to the trusted ones.
    pub own_cert: bool,
}

/// The text of a variable, or a default where it is not set.
pub open spec fn text_or(variable: Option<String>, default: Seq<char>) -> Seq<char> {
    match variable {
        Some(text) => text@,
        None => default,
    }
}

impl ConnectEnv {
    /// How the password is found: `static` unless the variable says otherwise.
    pub open spec fn mode(self) -> Seq<char> {
        text_or(self.password_mode, "static"@)
    }

    /// Whether a connection can be settled: host, port, user and database are set, so is the
    /// password where it is static, the port is a `u16`, and the variable for the certificate
    /// is a boolean where it is set.
    pub open spec fn complete(self) -> bool {
        &&& self.host is Some
        &&& self.port matches Some(port) && unsigned_value(port@, 10, u16::MAX as nat) is Some
        &&& self.username is Some
        &&& self.database is Some
        &&& self.mode() == "static"@ ==> self.password is Some
        &&& bool_value(text_or(self.own_cert, "false"@)) is Some
    }

    /// Whether a connection can be settled.
    pub fn is_complete(&self) -> (r: bool)
        ensures
            r == self.complete(),
    {
        let port_ok = match &self.port {
            Some(port) => parse_u16(port.as_str()).is_some(),
            None => false,
        };
        let own_cert = or_default(&self.own_cert, "false");
        let mode = or_default(&self.password_mode, "static");
        self.host.is_some() && port_ok && self.username.is_some() && self.database.is_some() && (
        !same_text(mode.as_str(), "static") || self.password.is_some()) && parse_bool(
            own_cert.as_str(),
        ).is_some()
    }
}

fn or_default(variable: &Option<String>, default: &str) -> (r: String)
    ensures
        r@ == text_or(*variable, default@),
{
    match variable {
        Some(text) => text.clone(),
        None => default.to_owned(),
    }
}

fn set_text(variable: &Option<String>) -> (r: String)
    requires
        variable is Some,
    ensures
        r@ == variable->0@,
{
    variable.as_ref().unwrap().clone()
}

impl ReplicationClient {
    /// The settings of a connection over TLS.
    pub fn connect_tls_settings(env: &ConnectEnv) -> (r: ConnectSettings)
        requires
            env.complete(),
        ensures
            r.host@ == env.host->0@,
            Some(r.port as nat) == unsigned_value(env.port->0@, 10, u16::MAX as nat),
            r.user@ == env.username->0@,
            r.dbname@ == env.database->0@,
            r.password@ == if env.mode() == "static"@ {
                PasswordSourceView::Static(env.password->0@)
            } else if env.mode() == "azure-dynamic"@ {
                PasswordSourceView::AzureDynamic
            } else {
                PasswordSourceView::Unset
            },
            Some(r.own_cert) == bool_value(text_or(env.own_cert, "false"@)),
    {
        let port: u16 = parse_u16(set_text(&env.port).as_str()).unwrap();
        let mode = or_default(&env.password_mode, "static");
        let password = if same_text(mode.as_str(), "static") {
            PasswordSource::Static(set_text(&env.password))
        } else if same_text(mode.as_str(), "azure-dynamic") {
            PasswordSource::AzureDynamic
        } else {
            PasswordSource::Unset
        };
        let own_cert: bool = parse_bool(or_default(&env.own_cert, "false").as_str()).unwrap();
        ConnectSettings {
            host: set_text(&env.host),
            port,
            user: set_text(&env.username),
            dbname: set_text(&env.database),
            password,
            own_cert,
        }
    }
}

/// The text of a variable that is set is its text, also where that is empty; the default counts
/// only where it is not set.
pub proof fn law_text_or(variable: Option<String>, default: Seq<char>)
    ensures
        variable matches Some(text) ==> text_or(variable, default) == text@,
        variable is None ==> text_or(variable, default) == default,
{
}

/// The password is static unless the variable says otherwise, and no other variable counts for
/// that.
pub proof fn law_mode(env: ConnectEnv, other: ConnectEnv)
    ensures
        env.password_mode is None ==> env.mode() == "static"@,
        env.password_mode matches Some(text) ==> env.mode() == text@,
        env.password_mode == other.password_mode ==> env.mode() == other.mode(),
{
}

/// A connection can be settled exactly where host, user and database are set, the port is set to
/// a number that fits, the variable for the certificate is one of the two booleans or not set,
/// and the password is set or its mode is another than the static one.
pub proof fn law_complete(env: ConnectEnv)
    ensures
        env.complete() <==> {
            &&& env.host is Some
            &&& env.username is Some
            &&& env.database is Some
            &&& env.port matches Some(port) && unsigned_value(port@, 10, 65535) is Some
            &&& env.own_cert matches Some(text) ==> text@ == "true"@ || text@ == "false"@
            &&& env.password is Some || (env.password_mode matches Some(mode) && mode@
                != "static"@)
        },
{
}

/// The view of a password's source is the same source, with the same password.
pub proof fn law_password_source_view(source: PasswordSource)
    ensures
        match source {
            PasswordSource::Static(password) => source@ == PasswordSourceView::Static(password@),
            PasswordSource::AzureDynamic => source@ is AzureDynamic,
            PasswordSource::Unset => source@ is Unset,
        },
{
}

} // verus!
