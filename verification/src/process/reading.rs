//! Readings of the proc file system that only this module can make: each is a value of a
//! type whose fields are private here, so that a value of it is always one that was read.

use procfs::process::Process;
use vstd::prelude::*;

use crate::process::{ClockTicks, ProcStat};

verus! {

/// A reading of the boot time of the system, in seconds since the epoch.
pub struct BootTime {
    secs: u64,
}

impl View for BootTime {
    type V = u64;

    closed spec fn view(&self) -> u64 {
        self.secs
    }
}

impl BootTime {
    /// The seconds since the epoch that were read.
    pub fn secs(&self) -> (r: u64)
        ensures
            r == self@,
    {
        self.secs
    }
}

/// A reading of the number of clock ticks per second.
pub struct TickRate {
    ticks: u64,
}

impl View for TickRate {
    type V = u64;

    closed spec fn view(&self) -> u64 {
        self.ticks
    }
}

impl TickRate {
    /// The number of clock ticks per second that was read.
    pub fn clock_ticks(&self) -> (r: ClockTicks)
        ensures
            r.0 == self@,
    {
        ClockTicks(self.ticks)
    }
}

/// A reading of the `stat` file of a process.
pub struct StatReading {
    stat: ProcStat,
}

impl View for StatReading {
    type V = ProcStat;

    closed spec fn view(&self) -> ProcStat {
        self.stat
    }
}

impl StatReading {
    /// The fields that were read.
    pub fn stat(&self) -> (r: ProcStat)
        ensures
            r == self@,
    {
        self.stat
    }
}

/// The `stat` fields the collector reports, by `Process::stat`, a reading of `/proc`;
/// nothing is claimed of them.
#[verifier::external_body]
pub(crate) fn process_stat(p: &Process) -> Option<StatReading> {
    match p.stat() {
        Ok(s) => Some(
            StatReading {
                stat: ProcStat {
                    vsize: s.vsize,
                    rss: s.rss,
                    utime: s.utime,
                    stime: s.stime,
                    num_threads: s.num_threads,
                    starttime: s.starttime,
                },
            },
        ),
        Err(_) => None,
    }
}

/// The boot time of the system in seconds since the epoch, by `procfs::boot_time_secs`;
/// nothing is claimed of it.
#[verifier::external_body]
pub(crate) fn boot_time_secs() -> Option<BootTime> {
    match procfs::boot_time_secs() {
        Ok(secs) => Some(BootTime { secs }),
        Err(_) => None,
    }
}

/// The number of clock ticks per second, by `procfs::ticks_per_second`; nothing is
/// claimed of it.
#[verifier::external_body]
pub(crate) fn ticks_per_second() -> TickRate {
    TickRate { ticks: procfs::ticks_per_second() }
}

} // verus!
