//! Application settings as seen by the library.
//!
//! Discovering, reading and merging configuration sources is the hosting
//! process's duty; the library only looks at the resulting values.

use vstd::prelude::*;

verus! {

/// Settings the hosting process hands in after loading its configuration
/// sources.  `language` is either an explicit locale tag or the sentinel
/// `"default"`, which means "keep the auto-detected locale".
pub struct AppConfig {
    pub debug: bool,
    pub language: String,
}

/// Read the settings out of an initialized slot.  Callers must initialize
/// the slot first; the library never proceeds without settings.
pub fn get(config: &Option<AppConfig>) -> (r: &AppConfig)
    requires
        config is Some,
    ensures
        *r == config->Some_0,
{
    match config {
        Some(c) => c,
        None => vstd::pervasive::unreached(),
    }
}

} // verus!
