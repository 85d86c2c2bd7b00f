//! Scroll event bookkeeping.
//!
//! The window system hands the shell raw wheel or touchpad deltas; the shell
//! turns them into a direction and a whole-number magnitude and passes them
//! here, together with a millisecond timestamp. This module keeps the state:
//! it can swallow the first notch of a scroll session for a smoother feel,
//! and it forgets a session after a quiet timeout.

use vstd::prelude::*;

verus! {

/// Scroll direction.
#[derive(Debug, Clone, Copy, PartialEq, Eq, Structural)]
pub enum ScrollDirection {
    Up,
    Down,
}

/// Configuration for scroll behavior.
#[derive(Debug, Clone, Copy, PartialEq, Eq, Structural)]
pub struct ScrollConfig {
    /// Lines to scroll per wheel tick.
    pub lines_per_tick: usize,
    /// Whether to ignore the first scroll notch of a session.
    pub ignore_first_notch: bool,
    /// Quiet time in milliseconds after which the session resets.
    pub reset_timeout_ms: u64,
}

/// The stock configuration: one line per tick, first notch swallowed,
/// one-second timeout.
pub open spec fn standard_config() -> ScrollConfig {
    ScrollConfig { lines_per_tick: 1usize, ignore_first_notch: true, reset_timeout_ms: 1000u64 }
}

impl ScrollConfig {
    /// The stock configuration: one line per tick, first notch swallowed,
    /// one-second timeout.
    pub fn standard() -> (r: Self)
        ensures
            r == standard_config(),
    {
        ScrollConfig { lines_per_tick: 1, ignore_first_notch: true, reset_timeout_ms: 1000 }
    }
}

impl Default for ScrollConfig {
    fn default() -> (r: Self)
        ensures
            r == standard_config(),
    {
        ScrollConfig::standard()
    }
}

/// Scroll session state machine.
#[derive(Debug, Clone, Copy)]
pub struct ScrollState {
    config: ScrollConfig,
    first_notch_ignored: bool,
    last_scroll_time: Option<u64>,
}

impl ScrollState {
    /// The configuration in force.
    pub closed spec fn spec_config(self) -> ScrollConfig {
        self.config
    }

    /// Whether the first notch of the running session was already swallowed.
    pub closed spec fn spec_first_notch_ignored(self) -> bool {
        self.first_notch_ignored
    }

    /// The timestamp of the last scroll event of the session, if one ran.
    pub closed spec fn spec_last_time(self) -> Option<u64> {
        self.last_scroll_time
    }

    /// Fresh state with the stock configuration.
    pub fn new() -> (r: Self)
        ensures
            r.spec_config() == standard_config(),
            !r.spec_first_notch_ignored(),
            r.spec_last_time() is None,
    {
        ScrollState::with_config(ScrollConfig::standard())
    }

    /// Fresh state with the given configuration.
    pub fn with_config(config: ScrollConfig) -> (r: Self)
        ensures
            r.spec_config() == config,
            !r.spec_first_notch_ignored(),
            r.spec_last_time() is None,
    {
        ScrollState { config, first_notch_ignored: false, last_scroll_time: None }
    }

    /// Forget the running session.
    pub fn reset(&mut self)
        ensures
            final(self).spec_config() == old(self).spec_config(),
            !final(self).spec_first_notch_ignored(),
            final(self).spec_last_time() is None,
    {
        self.first_notch_ignored = false;
        self.last_scroll_time = None;
    }

    /// The configuration in force.
    pub fn config(&self) -> (r: &ScrollConfig)
        ensures
            *r == self.spec_config(),
    {
        &self.config
    }

    /// Replace the configuration.
    pub fn set_config(&mut self, config: ScrollConfig)
        ensures
            final(self).spec_config() == config,
            final(self).spec_first_notch_ignored() == old(self).spec_first_notch_ignored(),
            final(self).spec_last_time() == old(self).spec_last_time(),
    {
        self.config = config;
    }

    /// Feed one scroll event of `magnitude` notches at time `now_ms`; the
    /// number of lines to scroll, or `None` when the event is swallowed as
    /// the session's first notch. A quiet gap longer than the timeout starts
    /// a new session first.
    pub fn process_scroll_amount(
        &mut self,
        direction: ScrollDirection,
        magnitude: u32,
        now_ms: u64,
    ) -> (r: Option<(ScrollDirection, usize)>)
        requires
            magnitude as int * old(self).spec_config().lines_per_tick as int <= usize::MAX as int,
        ensures
            final(self).spec_config() == old(self).spec_config(),
            final(self).spec_last_time() == Some(now_ms),
            ({
                // a long quiet gap resets the session before the event counts
                let stale = match old(self).spec_last_time() {
                    Some(last) => now_ms > last && now_ms - last > old(
                        self,
                    ).spec_config().reset_timeout_ms,
                    None => false,
                };
                let was_ignored = old(self).spec_first_notch_ignored() && !stale;
                if old(self).spec_config().ignore_first_notch && !was_ignored {
                    r is None && final(self).spec_first_notch_ignored()
                } else {
                    r == Some(
                        (
                            direction,
                            (magnitude as int * old(self).spec_config().lines_per_tick as int) as usize,
                        ),
                    ) && final(self).spec_first_notch_ignored() == was_ignored
                }
            }),
    {
        match self.last_scroll_time {
            Some(last) => {
                if now_ms > last && now_ms - last > self.config.reset_timeout_ms {
                    self.reset();
                }
            },
            None => {},
        }
        self.last_scroll_time = Some(now_ms);
        if self.config.ignore_first_notch && !self.first_notch_ignored {
            self.first_notch_ignored = true;
            return None;
        }
        let lines = (magnitude as usize) * self.config.lines_per_tick;
        Some((direction, lines))
    }
}

impl Default for ScrollState {
    fn default() -> (r: Self)
        ensures
            r.spec_config() == standard_config(),
            !r.spec_first_notch_ignored(),
            r.spec_last_time() is None,
    {
        ScrollState::new()
    }
}

} // verus!
