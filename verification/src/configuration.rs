//! The settings of the service and the environment that selects them.

use crate::domain::{is_valid_email, SubscriberEmail};
use crate::email_client::{EmailClient, EmailClientView};
use vstd::prelude::*;
use vstd::string::StringExecFns;

verus! {

/// The runtime environment that selects the configuration layer.
#[derive(Debug, Clone, Copy, PartialEq, Eq, Structural)]
pub enum Environment {
    Development,
    Production,
}

/// The text of `s` with every character in lower case, as
/// `str::to_lowercase` gives it.
pub uninterp spec fn lowercase_of(s: Seq<char>) -> Seq<char>;

/// Lower-cases `s`.
///
/// Calls `str::to_lowercase`. The contract names the result and claims
/// nothing else of it.
#[verifier::external_body]
fn to_lowercase(s: &str) -> (lower: String)
    ensures
        lower@ == lowercase_of(s@),
{
    s.to_lowercase()
}

/// The environment that a lower-case name stands for, if any.
pub open spec fn environment_named(lower: Seq<char>) -> Option<Environment> {
    if lower == "development"@ {
        Some(Environment::Development)
    } else if lower == "production"@ {
        Some(Environment::Production)
    } else {
        None
    }
}

impl Environment {
    /// The lower-case name of the environment.
    pub open spec fn name(self) -> Seq<char> {
        match self {
            Environment::Development => "development"@,
            Environment::Production => "production"@,
        }
    }

    pub fn as_str(&self) -> (name: &'static str)
        ensures
            name@ == self.name(),
    {
        match self {
            Environment::Development => "development",
            Environment::Production => "production",
        }
    }

    /// Reads an environment from its name, in any mix of upper and lower
    /// case.
    pub fn try_from(s: String) -> (parsed: Result<Environment, String>)
        ensures
            match parsed {
                Ok(environment) => environment_named(lowercase_of(s@)) == Some(environment),
                Err(message) => environment_named(lowercase_of(s@)) is None && message@
                    == lowercase_of(s@) + " is not a supported environment"@,
            },
    {
        Environment::from_lowercase(to_lowercase(s.as_str()))
    }

    /// Reads an environment from its name in lower case.
    pub fn from_lowercase(lower: String) -> (parsed: Result<Environment, String>)
        ensures
            match parsed {
                Ok(environment) => environment_named(lower@) == Some(environment),
                Err(message) => environment_named(lower@) is None && message@ == lower@
                    + " is not a supported environment"@,
            },
    {
        if lower == String::from_str("development") {
            Ok(Environment::Development)
        } else if lower == String::from_str("production") {
            Ok(Environment::Production)
        } else {
            Err(lower.concat(" is not a supported environment"))
        }
    }

    /// The environment to run in, given what the `APP_ENVIRONMENT` variable
    /// holds: development when it is not set.
    pub fn detect(app_environment: Option<String>) -> (parsed: Result<Environment, String>)
        ensures
            match app_environment {
                None => parsed == Ok::<Environment, String>(Environment::Development),
                Some(s) => match parsed {
                    Ok(environment) => environment_named(lowercase_of(s@)) == Some(environment),
                    Err(message) => environment_named(lowercase_of(s@)) is None && message@
                        == lowercase_of(s@) + " is not a supported environment"@,
                },
            },
    {
        match app_environment {
            None => Ok(Environment::Development),
            Some(s) => Environment::try_from(s),
        }
    }

    /// The name of the file that holds this environment's settings.
    pub fn config_file_name(&self) -> (file_name: String)
        ensures
            file_name@ == self.name() + ".yaml"@,
    {
        String::from_str(self.as_str()).concat(".yaml")
    }
}

#[derive(Clone)]
pub struct Settings {
    pub application: ApplicationSettings,
    pub database: DatabaseSettings,
    pub email_client: EmailClientSettings,
    pub redis_uri: String,
}

#[derive(Clone)]
pub struct ApplicationSettings {
    pub http_bind_address: String,
    pub http_listen_port: u16,
    pub base_url: String,
    pub hmac_secret: String,
}

#[derive(Clone)]
pub struct DatabaseSettings {
    pub hostname: String,
    pub port: u16,
    pub username: String,
    pub password: String,
    pub database_name: String,
    pub require_ssl: bool,
}

/// Whether a connection insists on encryption.
#[derive(Debug, Clone, Copy, PartialEq, Eq, Structural)]
pub enum SslMode {
    /// Encrypt when the server offers it.
    Prefer,
    /// Refuse to connect without encryption.
    Require,
}

/// How to connect to the database.
#[derive(Debug, PartialEq, Eq)]
pub struct ConnectOptions {
    pub host: String,
    pub port: u16,
    pub username: String,
    pub password: String,
    pub database: String,
    pub ssl_mode: SslMode,
}

impl DatabaseSettings {
    /// The encryption that these settings ask for.
    pub open spec fn ssl_mode(self) -> SslMode {
        if self.require_ssl {
            SslMode::Require
        } else {
            SslMode::Prefer
        }
    }

    pub fn connect_options(&self) -> (options: ConnectOptions)
        ensures
            options.host@ == self.hostname@,
            options.port == self.port,
            options.username@ == self.username@,
            options.password@ == self.password@,
            options.database@ == self.database_name@,
            options.ssl_mode == self.ssl_mode(),
    {
        let ssl_mode = if self.require_ssl {
            SslMode::Require
        } else {
            SslMode::Prefer
        };
        ConnectOptions {
            host: self.hostname.clone(),
            port: self.port,
            username: self.username.clone(),
            password: self.password.clone(),
            database: self.database_name.clone(),
            ssl_mode,
        }
    }
}

#[derive(Clone)]
pub struct EmailClientSettings {
    pub base_url: String,
    pub sender_email: String,
    pub authorization_token: String,
    pub timeout_milliseconds: u64,
}

impl EmailClientSettings {
    /// The configured sender, if it is a valid address.
    pub fn sender(&self) -> (sender: Result<SubscriberEmail, String>)
        ensures
            match sender {
                Ok(email) => is_valid_email(self.sender_email@) && email@ == self.sender_email@,
                Err(message) => !is_valid_email(self.sender_email@) && message@
                    == self.sender_email@ + " is not a valid subscriber email."@,
            },
    {
        SubscriberEmail::parse(self.sender_email.clone())
    }

    /// How long a send may take, in milliseconds.
    pub fn timeout(&self) -> (milliseconds: u64)
        ensures
            milliseconds == self.timeout_milliseconds,
    {
        self.timeout_milliseconds
    }

    /// The email client that these settings describe. The sender must be a
    /// valid address.
    pub fn client(self) -> (client: EmailClient)
        requires
            is_valid_email(self.sender_email@),
        ensures
            client@ == (EmailClientView {
                base_url: self.base_url@,
                sender: self.sender_email@,
                authorization_token: self.authorization_token@,
                timeout_milliseconds: self.timeout_milliseconds,
            }),
    {
        let timeout = self.timeout();
        match self.sender() {
            Ok(sender) => EmailClient::new(
                self.base_url,
                sender,
                self.authorization_token,
                timeout,
            ),
            Err(_) => vstd::pervasive::unreached(),
        }
    }
}

} // verus!
