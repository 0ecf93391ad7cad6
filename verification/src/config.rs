//! The user's settings.

use vstd::prelude::*;

verus! {

/// The settings read from `config.toml`.
pub struct Config {
    /// The amount the tickets should add up to; `0` means no goal.
    pub goal: u32,
}

impl Default for Config {
    /// The settings written when there is no configuration file yet: no goal.
    fn default() -> (c: Self)
        ensures
            c.goal == 0,
    {
        Config { goal: 0 }
    }
}

} // verus!
