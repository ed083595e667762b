//! Resource metrics, carried as integers: percentages travel in
//! hundredths of a percent so the values stay exact.  The boundary layer
//! that reads them from the operating system converts its measurements
//! into these fields.

use vstd::prelude::*;

use crate::text;

verus! {

/// Metrics for one service instance.
#[derive(Clone, Copy, Debug, PartialEq, Eq, Structural)]
pub struct InstanceMetrics {
    /// CPU usage, in hundredths of a percent.
    pub cpu_percent_hundredths: u64,
    /// Resident memory in bytes.
    pub memory_bytes: u64,
    /// Share of total system memory, in hundredths of a percent.
    pub memory_percent_hundredths: u64,
    /// Number of threads.
    pub threads: u32,
    /// Number of open file descriptors.
    pub open_files: u32,
    /// Process uptime in seconds.
    pub uptime_seconds: u64,
}

/// The process-uptime rendering: `37s`, `12m 30s`, `3h 7m`, `2d 3h`.
pub open spec fn spec_process_uptime_text(secs: nat) -> Seq<char> {
    if secs < 60 {
        text::spec_dec(secs) + "s"@
    } else if secs < 3600 {
        text::spec_dec(secs / 60) + "m "@ + text::spec_dec(secs % 60) + "s"@
    } else if secs < 86400 {
        text::spec_dec(secs / 3600) + "h "@ + text::spec_dec((secs % 3600) / 60) + "m"@
    } else {
        text::spec_dec(secs / 86400) + "d "@ + text::spec_dec((secs % 86400) / 3600) + "h"@
    }
}

impl InstanceMetrics {
    /// Resident memory in whole megabytes.
    pub fn memory_mb(&self) -> (r: u64)
        ensures
            r as int == self.memory_bytes as int / (1024int * 1024),
    {
        self.memory_bytes / (1024 * 1024)
    }

    /// The uptime rendered for humans.
    pub fn uptime_string(&self) -> (r: String)
        ensures
            r@ == spec_process_uptime_text(self.uptime_seconds as nat),
    {
        let secs = self.uptime_seconds;
        if secs < 60 {
            let mut s = text::u64_to_string(secs);
            s.append("s");
            s
        } else if secs < 3600 {
            let mut s = text::u64_to_string(secs / 60);
            s.append("m ");
            s.append(text::u64_to_string(secs % 60).as_str());
            s.append("s");
            s
        } else if secs < 86400 {
            let mut s = text::u64_to_string(secs / 3600);
            s.append("h ");
            s.append(text::u64_to_string((secs % 3600) / 60).as_str());
            s.append("m");
            s
        } else {
            let mut s = text::u64_to_string(secs / 86400);
            s.append("d ");
            s.append(text::u64_to_string((secs % 86400) / 3600).as_str());
            s.append("h");
            s
        }
    }
}

/// System-wide metrics.  Load averages are carried in hundredths.
#[derive(Clone, Copy, Debug, PartialEq, Eq, Structural)]
pub struct SystemMetrics {
    /// Overall CPU usage, in hundredths of a percent.
    pub cpu_percent_hundredths: u64,
    /// Total system memory in bytes.
    pub memory_total_bytes: u64,
    /// Used system memory in bytes.
    pub memory_used_bytes: u64,
    /// Memory usage, in hundredths of a percent.
    pub memory_percent_hundredths: u64,
    /// One-minute load average, in hundredths.
    pub load_one_hundredths: u64,
    /// Five-minute load average, in hundredths.
    pub load_five_hundredths: u64,
    /// Fifteen-minute load average, in hundredths.
    pub load_fifteen_hundredths: u64,
}

impl SystemMetrics {
    /// Memory not currently in use, in bytes; zero when accounting says
    /// more is used than exists.
    pub fn memory_available_bytes(&self) -> (r: u64)
        ensures
            r == if self.memory_used_bytes <= self.memory_total_bytes {
                (self.memory_total_bytes - self.memory_used_bytes) as u64
            } else {
                0u64
            },
    {
        if self.memory_used_bytes <= self.memory_total_bytes {
            self.memory_total_bytes - self.memory_used_bytes
        } else {
            0
        }
    }

    /// The load averages over one, five and fifteen minutes, in
    /// hundredths.
    pub fn load_average_tuple(&self) -> (r: (u64, u64, u64))
        ensures
            r == (self.load_one_hundredths, self.load_five_hundredths, self.load_fifteen_hundredths),
    {
        (self.load_one_hundredths, self.load_five_hundredths, self.load_fifteen_hundredths)
    }
}

impl Default for SystemMetrics {
    fn default() -> (r: Self)
        ensures
            r == (SystemMetrics {
                cpu_percent_hundredths: 0u64,
                memory_total_bytes: 0u64,
                memory_used_bytes: 0u64,
                memory_percent_hundredths: 0u64,
                load_one_hundredths: 0u64,
                load_five_hundredths: 0u64,
                load_fifteen_hundredths: 0u64,
            }),
    {
        SystemMetrics {
            cpu_percent_hundredths: 0,
            memory_total_bytes: 0,
            memory_used_bytes: 0,
            memory_percent_hundredths: 0,
            load_one_hundredths: 0,
            load_five_hundredths: 0,
            load_fifteen_hundredths: 0,
        }
    }
}

/// Aggregated snapshot for a dashboard.
#[derive(Clone, Copy, Debug, PartialEq, Eq, Structural)]
pub struct MetricsSummary {
    /// System metrics.
    pub system: SystemMetrics,
    /// Number of running instances.
    pub running_count: usize,
    /// Number of stopped instances.
    pub stopped_count: usize,
    /// Number of instances in error.
    pub error_count: usize,
    /// CPU usage summed over monitored instances, in hundredths of a
    /// percent.
    pub total_instance_cpu_hundredths: u64,
    /// Memory summed over monitored instances, in bytes.
    pub total_instance_memory: u64,
}

/// `part` as a share of `total`, in hundredths of a percent, saturating
/// at `u64::MAX`; zero when `total` is zero.
pub open spec fn spec_percent_hundredths(part: u64, total: u64) -> u64 {
    if total == 0 {
        0u64
    } else if part as int * 10000 / total as int > u64::MAX {
        u64::MAX
    } else {
        (part as int * 10000 / total as int) as u64
    }
}

/// Compute a share in hundredths of a percent.
pub fn percent_hundredths(part: u64, total: u64) -> (r: u64)
    ensures
        r == spec_percent_hundredths(part, total),
{
    if total == 0 {
        return 0;
    }
    let wide: u128 = (part as u128) * 10000 / (total as u128);
    if wide > u64::MAX as u128 {
        u64::MAX
    } else {
        wide as u64
    }
}

} // verus!
