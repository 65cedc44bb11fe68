//! The sampling agent: one round of host readings becomes one sample.
//!
//! The agent reads the machine's counters and hands them over as
//! [`HostReadings`]. Everything here is integer arithmetic on those readings;
//! scaling the totals to the units of a gauge is left to the caller.

use vstd::prelude::*;
use vstd::string::*;

verus! {

/// Name used where the system does not report a host name.
pub const UNKNOWN_HOST: &'static str = "unknown_host";

/// Where the agent delivers its samples.
pub const INGEST_URL: &'static str = "http://localhost:3000/ingest";

/// Seconds between two samples. The agent waits as long before the first one,
/// since processor usage is measured over an interval.
pub const SAMPLE_INTERVAL_SECONDS: u64 = 1;

/// Traffic counters of one network interface, in bytes.
#[derive(Debug, Clone, PartialEq, Eq)]
pub struct InterfaceCounters {
    pub received: u64,
    pub transmitted: u64,
}

/// Capacity of one disk, in bytes.
#[derive(Debug, Clone, PartialEq, Eq)]
pub struct DiskSpace {
    pub total: u64,
    pub available: u64,
}

/// Readings of the first graphics device. A reading that failed is `None`.
#[derive(Debug, Clone, PartialEq, Eq)]
pub struct GpuReadings {
    /// Utilization in percent.
    pub utilization: Option<u32>,
    /// Temperature of the chip in degrees Celsius.
    pub temperature: Option<u32>,
    /// Memory in use, in bytes.
    pub memory_used: Option<u64>,
}

/// What the agent read from the machine in one round.
#[derive(Debug, Clone, PartialEq, Eq)]
pub struct HostReadings {
    /// Global processor usage, as the bit pattern of a single-precision float.
    pub cpu_usage: u32,
    /// Memory in use, in bytes.
    pub used_memory: u64,
    pub interfaces: Vec<InterfaceCounters>,
    pub disks: Vec<DiskSpace>,
    /// `None` where no graphics driver is loaded or no device is found.
    pub gpu: Option<GpuReadings>,
}

/// Space in use over all disks, in bytes. A sample holds one only where
/// `total` is not zero.
#[derive(Debug, Clone, PartialEq, Eq)]
pub struct DiskUsage {
    pub used: u128,
    pub total: u128,
}

/// One sample in whole units, before it is scaled to gauges.
#[derive(Debug, Clone, PartialEq, Eq)]
pub struct HostSample {
    pub host_id: String,
    pub timestamp: i64,
    pub cpu_usage: u32,
    pub used_memory: u64,
    /// Bytes received over all interfaces.
    pub received: u128,
    /// Bytes transmitted over all interfaces.
    pub transmitted: u128,
    /// `None` where the disks report no capacity at all.
    pub disk: Option<DiskUsage>,
    pub gpu_utilization: u32,
    pub gpu_temperature: u32,
    pub gpu_memory_used: u64,
}

/// Sum of a list of counters.
pub open spec fn sum(counters: Seq<u64>) -> nat
    decreases counters.len(),
{
    if counters.len() == 0 {
        0
    } else {
        sum(counters.drop_last()) + counters.last() as nat
    }
}

/// Bytes received, interface by interface.
pub open spec fn received_counters(interfaces: Seq<InterfaceCounters>) -> Seq<u64> {
    Seq::new(interfaces.len(), |k: int| interfaces[k].received)
}

/// Bytes transmitted, interface by interface.
pub open spec fn transmitted_counters(interfaces: Seq<InterfaceCounters>) -> Seq<u64> {
    Seq::new(interfaces.len(), |k: int| interfaces[k].transmitted)
}

/// Capacity, disk by disk.
pub open spec fn total_counters(disks: Seq<DiskSpace>) -> Seq<u64> {
    Seq::new(disks.len(), |k: int| disks[k].total)
}

/// Free space, disk by disk.
pub open spec fn available_counters(disks: Seq<DiskSpace>) -> Seq<u64> {
    Seq::new(disks.len(), |k: int| disks[k].available)
}

/// Space in use for given totals: nothing where there is no capacity, and
/// zero where more is reported available than there is.
pub open spec fn disk_usage(total: nat, available: nat) -> Option<(nat, nat)> {
    if total == 0 {
        None
    } else if available <= total {
        Some(((total - available) as nat, total))
    } else {
        Some((0nat, total))
    }
}

/// Utilization of the graphics device, zero where it is absent or unread.
pub open spec fn gpu_utilization(gpu: Option<GpuReadings>) -> u32 {
    match gpu {
        Some(GpuReadings { utilization: Some(percent), .. }) => percent,
        _ => 0,
    }
}

/// Temperature of the graphics device, zero where it is absent or unread.
pub open spec fn gpu_temperature(gpu: Option<GpuReadings>) -> u32 {
    match gpu {
        Some(GpuReadings { temperature: Some(degrees), .. }) => degrees,
        _ => 0,
    }
}

/// Memory in use on the graphics device, zero where it is absent or unread.
pub open spec fn gpu_memory_used(gpu: Option<GpuReadings>) -> u64 {
    match gpu {
        Some(GpuReadings { memory_used: Some(bytes), .. }) => bytes,
        _ => 0,
    }
}

/// The sum of the first `n + 1` counters is the sum of the first `n` and the
/// next one.
pub proof fn lemma_sum_step(counters: Seq<u64>, n: int)
    requires
        0 <= n < counters.len(),
    ensures
        sum(counters.take(n + 1)) == sum(counters.take(n)) + counters[n] as nat,
{
    assert(counters.take(n + 1).drop_last() =~= counters.take(n));
}

/// Sums the traffic counters of all interfaces.
pub fn total_traffic(interfaces: &Vec<InterfaceCounters>) -> (totals: (u128, u128))
    ensures
        totals.0 == sum(received_counters(interfaces@)),
        totals.1 == sum(transmitted_counters(interfaces@)),
{
    let mut received: u128 = 0;
    let mut transmitted: u128 = 0;
    let mut n: usize = 0;
    while n < interfaces.len()
        invariant
            n <= interfaces.len(),
            received == sum(received_counters(interfaces@).take(n as int)),
            transmitted == sum(transmitted_counters(interfaces@).take(n as int)),
            received <= n * u64::MAX,
            transmitted <= n * u64::MAX,
        decreases interfaces.len() - n,
    {
        proof {
            lemma_sum_step(received_counters(interfaces@), n as int);
            lemma_sum_step(transmitted_counters(interfaces@), n as int);
            assert((n + 1) * u64::MAX <= u64::MAX * u64::MAX) by (nonlinear_arith)
                requires
                    n + 1 <= u64::MAX,
            ;
        }
        received = received + interfaces[n].received as u128;
        transmitted = transmitted + interfaces[n].transmitted as u128;
        n = n + 1;
    }
    proof {
        assert(received_counters(interfaces@).take(n as int) =~= received_counters(interfaces@));
        assert(transmitted_counters(interfaces@).take(n as int) =~= transmitted_counters(
            interfaces@,
        ));
    }
    (received, transmitted)
}

/// Sums the capacity and the free space of all disks.
pub fn total_space(disks: &Vec<DiskSpace>) -> (totals: (u128, u128))
    ensures
        totals.0 == sum(total_counters(disks@)),
        totals.1 == sum(available_counters(disks@)),
{
    let mut total: u128 = 0;
    let mut available: u128 = 0;
    let mut n: usize = 0;
    while n < disks.len()
        invariant
            n <= disks.len(),
            total == sum(total_counters(disks@).take(n as int)),
            available == sum(available_counters(disks@).take(n as int)),
            total <= n * u64::MAX,
            available <= n * u64::MAX,
        decreases disks.len() - n,
    {
        proof {
            lemma_sum_step(total_counters(disks@), n as int);
            lemma_sum_step(available_counters(disks@), n as int);
            assert((n + 1) * u64::MAX <= u64::MAX * u64::MAX) by (nonlinear_arith)
                requires
                    n + 1 <= u64::MAX,
            ;
        }
        total = total + disks[n].total as u128;
        available = available + disks[n].available as u128;
        n = n + 1;
    }
    proof {
        assert(total_counters(disks@).take(n as int) =~= total_counters(disks@));
        assert(available_counters(disks@).take(n as int) =~= available_counters(disks@));
    }
    (total, available)
}

/// Turns one round of readings into a sample. Traffic and disk space are
/// summed over all devices; a graphics reading that is missing counts as zero.
pub fn collect_metrics(readings: &HostReadings, host_id: &str, timestamp: i64) -> (sample:
    HostSample)
    ensures
        sample.host_id@ == host_id@,
        sample.timestamp == timestamp,
        sample.cpu_usage == readings.cpu_usage,
        sample.used_memory == readings.used_memory,
        sample.received == sum(received_counters(readings.interfaces@)),
        sample.transmitted == sum(transmitted_counters(readings.interfaces@)),
        match sample.disk {
            Some(usage) => Some((usage.used as nat, usage.total as nat)),
            None => None,
        } == disk_usage(
            sum(total_counters(readings.disks@)),
            sum(available_counters(readings.disks@)),
        ),
        sample.gpu_utilization == gpu_utilization(readings.gpu),
        sample.gpu_temperature == gpu_temperature(readings.gpu),
        sample.gpu_memory_used == gpu_memory_used(readings.gpu),
{
    let (received, transmitted) = total_traffic(&readings.interfaces);
    let (total, available) = total_space(&readings.disks);
    let disk = if total == 0 {
        None
    } else if available <= total {
        Some(DiskUsage { used: total - available, total })
    } else {
        Some(DiskUsage { used: 0, total })
    };
    let (gpu_utilization, gpu_temperature, gpu_memory_used) = match &readings.gpu {
        Some(gpu) => (
            match gpu.utilization {
                Some(percent) => percent,
                None => 0,
            },
            match gpu.temperature {
                Some(degrees) => degrees,
                None => 0,
            },
            match gpu.memory_used {
                Some(bytes) => bytes,
                None => 0,
            },
        ),
        None => (0, 0, 0),
    };
    HostSample {
        host_id: String::from_str(host_id),
        timestamp,
        cpu_usage: readings.cpu_usage,
        used_memory: readings.used_memory,
        received,
        transmitted,
        disk,
        gpu_utilization,
        gpu_temperature,
        gpu_memory_used,
    }
}

/// Asks the operating system for the host name through `hostname::get`, and
/// replaces what is not valid Unicode in it as `to_string_lossy` does. `None`
/// where the system reports an error. Nothing is claimed of the name itself.
#[verifier::external_body]
fn reported_hostname() -> (name: Option<String>) {
    match hostname::get() {
        Ok(name) => Some(name.to_string_lossy().into_owned()),
        Err(_) => None,
    }
}

/// The name under which a host reports, given what the system said.
pub fn hostname_or_default(reported: Option<String>) -> (name: String)
    ensures
        name@ == match reported {
            Some(given) => given@,
            None => UNKNOWN_HOST@,
        },
{
    match reported {
        Some(given) => given,
        None => String::from_str(UNKNOWN_HOST),
    }
}

/// The identifier of this host: the system's host name, or
/// [`UNKNOWN_HOST`] where the system gives none.
pub fn get_hostname() -> (name: String) {
    hostname_or_default(reported_hostname())
}

} // verus!
