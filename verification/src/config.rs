//! Engine configuration: the runtime environment and the log level that goes
//! with it.

use vstd::prelude::*;
use vstd::std_specs::cmp::PartialEqSpecImpl;

verus! {

/// Environment that is assumed when none is named.
pub const DEFAULT_ENVIRONMENT: &'static str = "development";

/// The ASCII lower case form of `c`: `'A'..='Z'` map to `'a'..='z'`, every
/// other character to itself.
pub open spec fn ascii_lower(c: char) -> char {
    if 'A' <= c && c <= 'Z' {
        ((c as u32) + 32) as char
    } else {
        c
    }
}

/// `text` with each character in ASCII lower case.
pub open spec fn lowercase(text: Seq<char>) -> Seq<char> {
    text.map_values(|c: char| ascii_lower(c))
}

/// Whether `environment` names production, in any mix of cases.
pub open spec fn names_production(environment: Seq<char>) -> bool {
    lowercase(environment) == "production"@ || lowercase(environment) == "prod"@
}

/// Whether `environment` names development, in any mix of cases.
pub open spec fn names_development(environment: Seq<char>) -> bool {
    lowercase(environment) == "development"@ || lowercase(environment) == "dev"@
}

/// Whether `environment` names staging, in any mix of cases.
pub open spec fn names_staging(environment: Seq<char>) -> bool {
    lowercase(environment) == "staging"@
}

/// The log level that goes with `environment`: `info` in production and
/// staging, `debug` everywhere else.
pub open spec fn log_level_of(environment: Seq<char>) -> Seq<char> {
    if names_production(environment) || names_staging(environment) {
        "info"@
    } else {
        "debug"@
    }
}

/// `str::to_ascii_lowercase`: a copy of `text` in which the ASCII letters
/// `'A'..='Z'` are replaced by `'a'..='z'` and every other character is kept.
#[verifier::external_body]
pub(crate) fn lowercased(text: &str) -> (lowered: String)
    ensures
        lowered@ == lowercase(text@),
{
    text.to_ascii_lowercase()
}

/// Equality of string slices, `==` on `str`: true exactly when both hold the
/// same characters.
pub assume_specification[ <str as PartialEq>::eq ](left: &str, right: &str) -> (same: bool)
    ensures
        same == (left@ == right@),
;

/// Environment and logging configuration of the engine.
#[derive(Debug)]
pub struct Config {
    /// The runtime environment, such as `development`, `staging` or
    /// `production`.
    pub environment: String,
    /// The minimum level of the messages that are logged.
    pub log_level: String,
}

/// The two settings of a configuration as character sequences.
pub ghost struct ConfigView {
    pub environment: Seq<char>,
    pub log_level: Seq<char>,
}

impl View for Config {
    type V = ConfigView;

    open spec fn view(&self) -> ConfigView {
        ConfigView { environment: self.environment@, log_level: self.log_level@ }
    }
}

impl Clone for Config {
    fn clone(&self) -> (copy: Self)
        ensures
            copy@ == self@,
    {
        Config { environment: self.environment.clone(), log_level: self.log_level.clone() }
    }
}

impl PartialEq for Config {
    fn eq(&self, other: &Self) -> (same: bool) {
        self.environment == other.environment && self.log_level == other.log_level
    }
}

impl PartialEqSpecImpl for Config {
    open spec fn obeys_eq_spec() -> bool {
        true
    }

    open spec fn eq_spec(&self, other: &Self) -> bool {
        self.environment@ == other.environment@ && self.log_level@ == other.log_level@
    }
}

impl Eq for Config {

}

impl Default for Config {
    fn default() -> (config: Self)
        ensures
            config.environment@ == DEFAULT_ENVIRONMENT@,
            config.log_level@ == "debug"@,
    {
        Config { environment: DEFAULT_ENVIRONMENT.to_owned(), log_level: "debug".to_owned() }
    }
}

impl Config {
    /// The configuration for the environment that `variable` names, or for
    /// the default environment when it names none. The log level follows
    /// from the environment.
    pub fn from_environment(variable: Option<String>) -> (config: Self)
        ensures
            config.environment@ == match variable {
                Some(name) => name@,
                None => DEFAULT_ENVIRONMENT@,
            },
            config.log_level@ == log_level_of(config.environment@),
    {
        let environment = match variable {
            Some(name) => name,
            None => DEFAULT_ENVIRONMENT.to_owned(),
        };
        let log_level = Self::log_level_for_environment(environment.as_str());
        Config { environment, log_level }
    }

    /// The log level that goes with `env`.
    pub fn log_level_for_environment(env: &str) -> (level: String)
        ensures
            level@ == log_level_of(env@),
    {
        let lowered = lowercased(env);
        if lowered.as_str().eq("production") || lowered.as_str().eq("prod") {
            "info".to_owned()
        } else if lowered.as_str().eq("staging") {
            "info".to_owned()
        } else {
            "debug".to_owned()
        }
    }

    /// Whether the environment is a development one.
    pub fn is_development(&self) -> (yes: bool)
        ensures
            yes == names_development(self.environment@),
    {
        let lowered = lowercased(self.environment.as_str());
        lowered.as_str().eq("development") || lowered.as_str().eq("dev")
    }

    /// Whether the environment is a production one.
    pub fn is_production(&self) -> (yes: bool)
        ensures
            yes == names_production(self.environment@),
    {
        let lowered = lowercased(self.environment.as_str());
        lowered.as_str().eq("production") || lowered.as_str().eq("prod")
    }
}

} // verus!
