//! Settings fixed at start-up.

use vstd::prelude::*;

verus! {

/// How the dashboard renders and how often it looks at the panes again.
#[derive(Clone, Copy, Debug, PartialEq, Eq)]
pub struct Config {
    /// Keep the colours and attributes of the captured text.
    pub color_output: bool,
    /// Milliseconds between two snapshots.
    pub refresh_rate: u64,
}

impl Default for Config {
    fn default() -> (config: Config)
        ensures
            config.color_output,
            config.refresh_rate == 500,
    {
        Config { color_output: true, refresh_rate: 500 }
    }
}

} // verus!
