//! What the scheduler is configured with.

use vstd::prelude::*;

verus! {

/// The scheduler's settings.
#[derive(Clone, Copy, Debug, PartialEq, Eq, Structural)]
pub struct SchedulerConfig {
    /// Seconds from the start of one scan cycle to the start of the next.
    pub interval_seconds: u32,
    /// Width of the scan window in seconds.
    pub window_seconds: u32,
    /// How many dispatches may be under way at once.
    pub max_concurrent: usize,
    /// After how many seconds a call that notifies an owner is given up and
    /// counts as failed; `None` where it may take as long as it takes.
    pub notify_timeout_seconds: Option<u32>,
}

impl SchedulerConfig {
    /// What holds of every usable configuration: at least one dispatch may
    /// be under way.
    pub open spec fn wf(&self) -> bool {
        self.max_concurrent >= 1
    }

    /// The settings under `interval_seconds`, `window_seconds` and
    /// `max_concurrent`, without a limit on the time that notifying may
    /// take; `None` where `max_concurrent` is zero.
    pub fn new(interval_seconds: u32, window_seconds: u32, max_concurrent: usize) -> (config:
        Option<SchedulerConfig>)
        ensures
            config == (if max_concurrent >= 1 {
                Some(
                    SchedulerConfig {
                        interval_seconds,
                        window_seconds,
                        max_concurrent,
                        notify_timeout_seconds: None,
                    },
                )
            } else {
                None
            }),
    {
        if max_concurrent >= 1 {
            Some(
                SchedulerConfig {
                    interval_seconds,
                    window_seconds,
                    max_concurrent,
                    notify_timeout_seconds: None,
                },
            )
        } else {
            None
        }
    }

    /// The same settings, but that a call that notifies an owner is given up
    /// after `seconds` seconds.
    pub fn with_notify_timeout(self, seconds: u32) -> (config: SchedulerConfig)
        ensures
            config == (SchedulerConfig { notify_timeout_seconds: Some(seconds), ..self }),
            self.wf() ==> config.wf(),
    {
        SchedulerConfig {
            interval_seconds: self.interval_seconds,
            window_seconds: self.window_seconds,
            max_concurrent: self.max_concurrent,
            notify_timeout_seconds: Some(seconds),
        }
    }

}

impl Default for SchedulerConfig {
    /// A scan every sixty seconds over a window of sixty seconds, one
    /// dispatch at a time, without a limit on the time that notifying may
    /// take.
    fn default() -> (config: SchedulerConfig)
        ensures
            config.wf(),
            config == (SchedulerConfig {
                interval_seconds: 60,
                window_seconds: 60,
                max_concurrent: 1,
                notify_timeout_seconds: None,
            }),
    {
        SchedulerConfig {
            interval_seconds: 60,
            window_seconds: 60,
            max_concurrent: 1,
            notify_timeout_seconds: None,
        }
    }
}

} // verus!
