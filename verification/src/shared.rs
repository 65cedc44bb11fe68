//! Records exchanged between the agent, the service and its clients.

use vstd::prelude::*;

verus! {

/// One timestamped sample of a host's resource usage.
///
/// The eight gauges travel through the service untouched. Each is held as the
/// bit pattern of a single-precision float, which keeps every value that an
/// agent can send and lets two samples be compared field by field.
#[derive(Debug, PartialEq, Eq)]
pub struct SystemMetric {
    pub host_id: String,
    /// Processor usage in percent.
    pub cpu_usage: u32,
    /// Memory in use, in megabytes.
    pub ram_usage_mb: u32,
    /// Disk space in use, in percent.
    pub disk_usage_percent: u32,
    /// Network traffic received, in kilobytes.
    pub net_rx_kb: u32,
    /// Network traffic transmitted, in kilobytes.
    pub net_tx_kb: u32,
    /// Utilization of the graphics device in percent.
    pub gpu_usage: u32,
    /// Temperature of the graphics device.
    pub gpu_temp: u32,
    /// Graphics memory in use, in megabytes.
    pub gpu_vram_used_mb: u32,
    /// Seconds since the Unix epoch.
    pub timestamp: i64,
}

impl Clone for SystemMetric {
    fn clone(&self) -> (copy: Self)
        ensures
            copy == *self,
    {
        SystemMetric {
            host_id: self.host_id.clone(),
            cpu_usage: self.cpu_usage,
            ram_usage_mb: self.ram_usage_mb,
            disk_usage_percent: self.disk_usage_percent,
            net_rx_kb: self.net_rx_kb,
            net_tx_kb: self.net_tx_kb,
            gpu_usage: self.gpu_usage,
            gpu_temp: self.gpu_temp,
            gpu_vram_used_mb: self.gpu_vram_used_mb,
            timestamp: self.timestamp,
        }
    }
}

/// A portfolio entry shown on the landing page.
#[derive(Debug, Clone, PartialEq, Eq)]
pub struct Project {
    pub id: i32,
    pub title: String,
    pub description: String,
    pub link: Option<String>,
}

/// The fields of a submitted contact form.
#[derive(Debug, Clone, PartialEq, Eq)]
pub struct ContactForm {
    pub name: String,
    pub email: String,
    pub message: String,
}

/// A question put to the assistant.
#[derive(Debug, Clone, PartialEq, Eq)]
pub struct ChatRequest {
    pub question: String,
}

/// Facts to add to the knowledge base.
#[derive(Debug, Clone, PartialEq, Eq)]
pub struct SeedRequest {
    pub facts: Vec<String>,
}

} // verus!
