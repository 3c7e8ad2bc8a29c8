//! Settings shared with the server supervisor: the automatic restart policy.

use vstd::prelude::*;

verus! {

/// Automatic restart policy for a crashed llama-server process.
#[derive(Clone, Copy, Debug, PartialEq, Eq)]
pub struct AutoRestore {
    pub enabled: bool,
    pub max_restarts: u32,
    /// Time window in seconds; restarts older than this are forgotten.
    pub window_secs: u64,
    /// First backoff delay in seconds, doubled after each attempt.
    pub backoff_start_secs: u64,
}

impl Default for AutoRestore {
    /// Enabled, at most 3 restarts per 5 minutes, first delay 2 seconds.
    fn default() -> (r: Self)
        ensures
            r.enabled,
            r.max_restarts == 3,
            r.window_secs == 300,
            r.backoff_start_secs == 2,
    {
        AutoRestore { enabled: true, max_restarts: 3, window_secs: 300, backoff_start_secs: 2 }
    }
}

/// `v` brought into `lo..=hi`.
pub open spec fn clamp_spec(v: int, lo: int, hi: int) -> int {
    if v < lo {
        lo
    } else if v > hi {
        hi
    } else {
        v
    }
}

impl AutoRestore {
    /// The policy with each number brought into the range that the settings
    /// accept: 1 to 20 restarts, a window of 30 to 3600 seconds, a first
    /// delay of 1 to 60 seconds.
    pub fn clamped(self) -> (r: Self)
        ensures
            r.enabled == self.enabled,
            r.max_restarts == clamp_spec(self.max_restarts as int, 1, 20),
            r.window_secs == clamp_spec(self.window_secs as int, 30, 3600),
            r.backoff_start_secs == clamp_spec(self.backoff_start_secs as int, 1, 60),
    {
        AutoRestore {
            enabled: self.enabled,
            max_restarts: if self.max_restarts < 1 {
                1
            } else if self.max_restarts > 20 {
                20
            } else {
                self.max_restarts
            },
            window_secs: if self.window_secs < 30 {
                30
            } else if self.window_secs > 3600 {
                3600
            } else {
                self.window_secs
            },
            backoff_start_secs: if self.backoff_start_secs < 1 {
                1
            } else if self.backoff_start_secs > 60 {
                60
            } else {
                self.backoff_start_secs
            },
        }
    }
}

} // verus!
