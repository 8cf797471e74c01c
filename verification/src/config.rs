//! Service configuration as plain values.  Reading the process
//! environment happens outside the library; the library only holds the
//! resulting configuration and answers which environment it names.

use vstd::prelude::*;

verus! {

/// Which environment the service runs in.
#[derive(Clone, Copy, Debug, PartialEq, Eq, Structural)]
pub enum Environment {
    Development,
    Test,
    Production,
}

/// The service configuration, with every value already read and parsed.
#[derive(Debug)]
pub struct Config {
    pub database_url: String,
    pub host: String,
    pub port: u16,
    pub jwt_secret: String,
    pub jwt_expiration: i64,
    pub log_level: String,
    pub environment: Environment,
    pub apple_shared_secret: Option<String>,
    pub google_service_account_json: Option<String>,
    pub webhook_signature_secret: String,
}

impl Environment {
    /// Which environment a lowercase label names; anything unrecognized
    /// falls back to development.
    pub open spec fn spec_from_label(s: Seq<char>) -> Environment {
        if s == "production"@ {
            Environment::Production
        } else if s == "test"@ {
            Environment::Test
        } else {
            Environment::Development
        }
    }

    /// Parse a lowercase environment label, falling back to development.
    pub fn from_label(s: &str) -> (r: Environment)
        ensures
            r == Self::spec_from_label(s@),
    {
        if crate::types::str_eq(s, "production") {
            Environment::Production
        } else if crate::types::str_eq(s, "test") {
            Environment::Test
        } else {
            Environment::Development
        }
    }
}

impl Config {
    /// Whether the configuration names the production environment.
    pub fn is_production(&self) -> (r: bool)
        ensures
            r == (self.environment is Production),
    {
        matches!(self.environment, Environment::Production)
    }

    /// Whether the configuration names the development environment.
    pub fn is_development(&self) -> (r: bool)
        ensures
            r == (self.environment is Development),
    {
        matches!(self.environment, Environment::Development)
    }

    /// Whether the configuration names the test environment.
    pub fn is_test(&self) -> (r: bool)
        ensures
            r == (self.environment is Test),
    {
        matches!(self.environment, Environment::Test)
    }
}

} // verus!
