//! The data that the library hands to and takes from its callers.
use vstd::prelude::*;

verus! {

/// DNS settings of one adapter as read from the system. The `original_*`
/// fields hold the addresses as they were at read time.
#[derive(Debug, Clone)]
pub struct DnsConfiguration {
    pub primary: Option<String>,
    pub secondary: Option<String>,
    pub primary_ipv6: Option<String>,
    pub secondary_ipv6: Option<String>,
    pub doh_enabled: bool,
    pub doh_template: Option<String>,
    pub dot_hostname: Option<String>,
    pub is_dhcp: bool,
    pub original_primary: Option<String>,
    pub original_secondary: Option<String>,
    pub original_primary_ipv6: Option<String>,
    pub original_secondary_ipv6: Option<String>,
}

/// The text an optional string holds.
pub open spec fn opt_view(o: Option<String>) -> Option<Seq<char>> {
    match o {
        Some(s) => Some(s@),
        None => None,
    }
}

/// A network interface with the DNS settings read for it.
#[derive(Debug, Clone)]
pub struct NetworkAdapter {
    pub name: String,
    pub description: String,
    pub is_connected: bool,
    pub current_dns: DnsConfiguration,
}

/// A named set of DNS servers that a user can apply in one step.
#[derive(Debug, Clone)]
pub struct DnsPreset {
    pub id: String,
    pub name: String,
    pub description: String,
    pub category: String,
    pub servers_ipv4: Vec<String>,
    pub servers_ipv6: Vec<String>,
    pub doh_template: Option<String>,
    pub dot_hostname: Option<String>,
    pub supports_doh: bool,
    pub supports_dot: bool,
    pub icon: String,
    pub color: String,
    pub website: Option<String>,
}

/// The outcome of one reachability probe of a DNS server.
#[derive(Debug, Clone)]
pub struct DnsTestResult {
    pub server: String,
    pub latency_ms: Option<u64>,
    pub is_available: bool,
    pub error: Option<String>,
}

/// The host's version, and whether it can encrypt DNS.
#[derive(Debug, Clone, Copy, PartialEq, Eq, Structural)]
pub struct WindowsVersion {
    pub major: u32,
    pub minor: u32,
    pub build: u32,
    pub supports_doh: bool,
}

} // verus!
