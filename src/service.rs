//! The options of a running mount and the decisions of its maintenance
//! loop: when to refresh the mirrors and when a refresh must end the run.
use vstd::prelude::*;

use crate::config::MountConfig;
use crate::rsync::{SyncError, SyncResult};

verus! {

/// Nanoseconds in a second.
pub const NANOS_PER_SEC: u64 = 1_000_000_000;

/// How a mount is run once it is up.
#[derive(Debug)]
pub struct Options {
    /// Whether a failed mount prints the kernel's log lines it carries.
    pub show_dmesg: Option<bool>,
    /// A file to write, once mounted, with the time of success.
    pub success_file: Option<String>,
    /// Seconds between two refreshes of the mirrors.
    pub resync_interval_seconds: u64,
    /// Seconds that a mirror may go without a successful refresh.
    pub sync_timeout_seconds: u64,
}

/// A composition together with how to run it.
#[derive(Debug)]
pub struct Config {
    pub mount_config: MountConfig,
    pub options: Options,
}

/// The refresh interval when none is configured: five minutes.
pub fn default_resync_interval() -> (r: u64)
    ensures
        r == 300,
{
    300
}

/// The staleness budget when none is configured: thirty minutes.
pub fn default_sync_timeout() -> (r: u64)
    ensures
        r == 1800,
{
    1800
}

/// `secs` seconds in nanoseconds, saturating at the largest `u64`.
pub open spec fn nanos_of(secs: u64) -> u64 {
    if secs as int * NANOS_PER_SEC as int > u64::MAX as int {
        u64::MAX
    } else {
        (secs * NANOS_PER_SEC) as u64
    }
}

/// `secs` seconds in nanoseconds, saturating at the largest `u64`.
pub fn seconds_to_nanos(secs: u64) -> (r: u64)
    ensures
        r == nanos_of(secs),
{
    if secs > u64::MAX / NANOS_PER_SEC {
        assert(secs as int * NANOS_PER_SEC as int > u64::MAX as int) by (nonlinear_arith)
            requires
                secs > u64::MAX / NANOS_PER_SEC,
        ;
        u64::MAX
    } else {
        assert(secs as int * NANOS_PER_SEC as int <= u64::MAX as int) by (nonlinear_arith)
            requires
                secs <= u64::MAX / NANOS_PER_SEC,
        ;
        secs * NANOS_PER_SEC
    }
}

impl Options {
    /// Whether a failed mount prints the kernel's log lines; off unless set.
    pub fn shows_log(&self) -> (r: bool)
        ensures
            r == (self.show_dmesg == Some(true)),
    {
        match self.show_dmesg {
            Some(b) => b,
            None => false,
        }
    }

    /// The staleness budget of the mirrors, in nanoseconds.
    pub fn max_age(&self) -> (r: u64)
        ensures
            r == nanos_of(self.sync_timeout_seconds),
    {
        seconds_to_nanos(self.sync_timeout_seconds)
    }

    /// Whether the mirrors are due for a refresh at `now`, the last refresh
    /// having been at `last_sync` (both in nanoseconds on one clock): the
    /// refresh interval has passed. A clock that went back counts as no time.
    pub fn resync_due(&self, last_sync: u64, now: u64) -> (r: bool)
        ensures
            r == ((if now >= last_sync {
                now - last_sync
            } else {
                0
            }) >= self.resync_interval_seconds as int * NANOS_PER_SEC as int),
    {
        let passed: u64 = if now >= last_sync {
            now - last_sync
        } else {
            0
        };
        (passed as u128) >= (self.resync_interval_seconds as u128) * (NANOS_PER_SEC as u128)
    }
}

/// The position of the first fatal result in `results`, if any: a refresh
/// with a fatal result ends the run.
pub fn first_fatal(results: &Vec<(String, SyncResult<SyncError>)>) -> (r: Option<usize>)
    ensures
        match r {
            Some(k) => k < results@.len() && results@[k as int].1 is Fatal && forall|j: int|
                0 <= j < k ==> !((#[trigger] results@[j]).1 is Fatal),
            None => forall|j: int| 0 <= j < results@.len() ==> !((#[trigger] results@[j]).1 is Fatal),
        },
{
    let mut k: usize = 0;
    while k < results.len()
        invariant
            k <= results@.len(),
            forall|j: int| 0 <= j < k ==> !((#[trigger] results@[j]).1 is Fatal),
        decreases results@.len() - k,
    {
        if matches!(results[k].1, SyncResult::Fatal(_)) {
            return Some(k);
        }
        k += 1;
    }
    None
}

} // verus!
