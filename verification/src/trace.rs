//! The default log filter of an environment.

use vstd::prelude::*;
use crate::config::{lowercased, names_development, names_production};

verus! {

/// The level that is logged in `env` unless the log filter is set from
/// outside: `debug` in development, `warn` in production, `info` everywhere
/// else.
pub open spec fn default_level_of(env: Seq<char>) -> Seq<char> {
    if names_development(env) {
        "debug"@
    } else if names_production(env) {
        "warn"@
    } else {
        "info"@
    }
}

/// The level that is logged in `env` unless the log filter is set from
/// outside.
pub fn default_level(env: &str) -> (level: &'static str)
    ensures
        level@ == default_level_of(env@),
{
    let lowered = lowercased(env);
    if lowered.as_str().eq("dev") || lowered.as_str().eq("development") {
        "debug"
    } else if lowered.as_str().eq("prod") || lowered.as_str().eq("production") {
        "warn"
    } else {
        "info"
    }
}

} // verus!
