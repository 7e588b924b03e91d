use dns_changer::dns::{CommandOutcome, CommandStep, DnsManager, ProbeOutcome, Progress, StepPolicy};
use dns_changer::network::{AdapterRecord, NetworkManager};
use dns_changer::presets::{CustomPresetsManager, PresetError};
use dns_changer::types::{DnsPreset, WindowsVersion};

fn args(step: &CommandStep) -> Vec<&str> {
    step.args.iter().map(|a| a.as_str()).collect()
}

fn preset(id: &str, name: &str) -> DnsPreset {
    DnsPreset {
        id: id.to_string(),
        name: name.to_string(),
        description: String::new(),
        category: "custom".to_string(),
        servers_ipv4: vec!["1.1.1.1".to_string()],
        servers_ipv6: vec![],
        doh_template: None,
        dot_hostname: None,
        supports_doh: false,
        supports_dot: false,
        icon: String::new(),
        color: String::new(),
        website: None,
    }
}

fn ids(list: &[DnsPreset]) -> Vec<(&str, &str)> {
    list.iter().map(|p| (p.id.as_str(), p.name.as_str())).collect()
}

#[test]
fn apply_two_ipv4_servers_plan() {
    let m = DnsManager::new();
    let plan = m.set_dns("Ethernet", vec!["1.1.1.1".to_string(), "1.0.0.1".to_string()], vec![], None);
    assert_eq!(plan.len(), 3);
    assert!(plan.iter().all(|s| s.program == "netsh"));
    assert_eq!(args(&plan[0]), vec!["interface", "ipv4", "set", "dnsservers", "Ethernet", "dhcp"]);
    assert_eq!(plan[0].policy, StepPolicy::Started);
    assert_eq!(args(&plan[1]), vec!["interface", "ipv4", "set", "dnsservers", "Ethernet", "static", "1.1.1.1", "primary"]);
    assert_eq!(plan[1].policy, StepPolicy::Succeeded);
    assert_eq!(args(&plan[2]), vec!["interface", "ipv4", "add", "dnsservers", "Ethernet", "1.0.0.1", "index=2"]);
    assert_eq!(plan[2].policy, StepPolicy::Succeeded);
}

#[test]
fn apply_with_ipv6_and_template_plan() {
    let m = DnsManager::new();
    let plan = m.set_dns(
        "Wi-Fi",
        vec!["".to_string(), "9.9.9.9".to_string()],
        vec!["2620:fe::fe".to_string()],
        Some("https://dns.quad9.net/dns-query".to_string()),
    );
    assert_eq!(plan.len(), 5);
    assert_eq!(args(&plan[1]), vec!["interface", "ipv4", "add", "dnsservers", "Wi-Fi", "9.9.9.9", "index=2"]);
    assert_eq!(args(&plan[2]), vec!["interface", "ipv6", "set", "dnsservers", "Wi-Fi", "dhcp"]);
    assert_eq!(args(&plan[3]), vec!["interface", "ipv6", "set", "dnsservers", "Wi-Fi", "static", "2620:fe::fe", "primary"]);
    assert_eq!(args(&plan[4]), vec!["dns", "add", "encryption", "server=Wi-Fi", "dohtemplate=auto", "autoupgrade=yes"]);
    assert_eq!(plan[4].policy, StepPolicy::BestEffort);
}

#[test]
fn reset_and_flush_plans() {
    let m = DnsManager::new();
    let plan = m.reset_to_dhcp("Ethernet");
    assert_eq!(plan.len(), 3);
    assert_eq!(args(&plan[0]), vec!["interface", "ipv4", "set", "dnsservers", "Ethernet", "dhcp"]);
    assert_eq!(args(&plan[1]), vec!["interface", "ipv6", "set", "dnsservers", "Ethernet", "dhcp"]);
    assert_eq!(plan[1].policy, StepPolicy::Succeeded);
    assert_eq!(args(&plan[2]), vec!["dns", "delete", "encryption", "server=Ethernet"]);
    assert_eq!(plan[2].policy, StepPolicy::BestEffort);
    let flush = m.flush_dns_cache();
    assert_eq!(flush[0].program, "ipconfig");
    assert_eq!(args(&flush[0]), vec!["/flushdns"]);
    let on = m.enable_doh("Ethernet", "https://x");
    assert_eq!(on.policy, StepPolicy::Started);
    assert_eq!(args(&m.disable_doh("Ethernet")), vec!["dns", "delete", "encryption", "server=Ethernet"]);
}

#[test]
fn advance_through_plan() {
    let m = DnsManager::new();
    let plan = m.set_dns("Ethernet", vec!["1.1.1.1".to_string(), "1.0.0.1".to_string()], vec![], Some("t".to_string()));
    let ok = CommandOutcome::Finished { success: true, stderr: String::new() };
    let failed = CommandOutcome::Finished { success: false, stderr: "Element not found.".to_string() };
    assert!(matches!(DnsManager::advance(&plan, 0, &failed), Progress::Run(1)));
    match DnsManager::advance(&plan, 0, &CommandOutcome::NotStarted("no netsh".to_string())) {
        Progress::Failed(e) => assert_eq!(e, "Failed to reset IPv4 DNS: no netsh"),
        other => panic!("{:?}", other),
    }
    match DnsManager::advance(&plan, 1, &failed) {
        Progress::Failed(e) => assert_eq!(e, "Failed to set IPv4 primary DNS: Element not found."),
        other => panic!("{:?}", other),
    }
    match DnsManager::advance(&plan, 2, &failed) {
        Progress::Failed(e) => assert_eq!(e, "Failed to set IPv4 secondary DNS: Element not found."),
        other => panic!("{:?}", other),
    }
    assert!(matches!(DnsManager::advance(&plan, 2, &ok), Progress::Run(3)));
    assert!(matches!(DnsManager::advance(&plan, 3, &failed), Progress::Completed));
    assert!(matches!(DnsManager::advance(&plan, 3, &CommandOutcome::NotStarted("x".to_string())), Progress::Completed));
}

#[test]
fn reset_failure_after_ipv4() {
    let m = DnsManager::new();
    let plan = m.reset_to_dhcp("Ethernet");
    let ok = CommandOutcome::Finished { success: true, stderr: String::new() };
    let failed = CommandOutcome::Finished { success: false, stderr: "denied".to_string() };
    assert!(matches!(DnsManager::advance(&plan, 0, &ok), Progress::Run(1)));
    match DnsManager::advance(&plan, 1, &failed) {
        Progress::Failed(e) => assert_eq!(e, "Failed to restore IPv6 DNS to DHCP: denied"),
        other => panic!("{:?}", other),
    }
    let flush = m.flush_dns_cache();
    match DnsManager::advance(&flush, 0, &failed) {
        Progress::Failed(e) => assert_eq!(e, "Failed to flush DNS cache: denied"),
        other => panic!("{:?}", other),
    }
    assert!(matches!(DnsManager::advance(&flush, 0, &ok), Progress::Completed));
}

#[test]
fn configuration_from_outputs() {
    let v4 = "    Statically Configured DNS Servers:    1.1.1.1\n                                          1.0.0.1\n\n";
    let v6 = "    Statically Configured DNS Servers:    2606:4700:4700::1111\n\n";
    let doh = "  template : https://cloudflare-dns.com/dns-query\n  autoupgrade: yes\n";
    let new = WindowsVersion { major: 10, minor: 0, build: 22631, supports_doh: true };
    let c = DnsManager::new().get_current_dns(v4, v6, new, Some(doh));
    assert_eq!(c.primary.as_deref(), Some("1.1.1.1"));
    assert_eq!(c.secondary.as_deref(), Some("1.0.0.1"));
    assert_eq!(c.primary_ipv6.as_deref(), Some("2606:4700:4700::1111"));
    assert_eq!(c.secondary_ipv6, None);
    assert_eq!(c.original_primary.as_deref(), Some("1.1.1.1"));
    assert_eq!(c.original_secondary.as_deref(), Some("1.0.0.1"));
    assert!(!c.is_dhcp);
    assert!(c.doh_enabled);
    assert_eq!(c.doh_template.as_deref(), Some("https://cloudflare-dns.com/dns-query"));
    let old = WindowsVersion { major: 10, minor: 0, build: 19045, supports_doh: false };
    let c = DnsManager::new().get_current_dns(v4, v6, old, Some(doh));
    assert!(!c.doh_enabled);
    assert_eq!(c.doh_template, None);
}

#[test]
fn probe_results() {
    let m = DnsManager::new();
    let r = m.test_dns("192.0.2.1", ProbeOutcome::SendTimeout);
    assert!(!r.is_available);
    assert_eq!(r.error.as_deref(), Some("timeout sending request"));
    let r = m.test_dns("192.0.2.1", ProbeOutcome::ReceiveTimeout);
    assert!(!r.is_available);
    assert_eq!(r.latency_ms, None);
    assert_eq!(r.error.as_deref(), Some("timeout waiting for response"));
    let r = m.test_dns("127.0.0.1", ProbeOutcome::Replied(12));
    assert!(r.is_available);
    assert_eq!(r.latency_ms, Some(12));
    assert_eq!(r.error, None);
    assert_eq!(r.server, "127.0.0.1");
    let r = m.test_dns("1.1.1.1", ProbeOutcome::SendFailed("unreachable".to_string()));
    assert_eq!(r.error.as_deref(), Some("Send error: unreachable"));
    let r = m.test_dns("1.1.1.1", ProbeOutcome::ReceiveFailed("reset".to_string()));
    assert_eq!(r.error.as_deref(), Some("Receive error: reset"));
    let r = m.test_dns("1.1.1.1", ProbeOutcome::BindFailed("in use".to_string()));
    assert!(!r.is_available);
    assert_eq!(r.latency_ms, None);
    assert_eq!(r.error.as_deref(), Some("Failed to bind UDP socket: in use"));
    assert_eq!(DnsManager::probe_address("8.8.8.8"), "8.8.8.8:53");
}

#[test]
fn query_packet() {
    let q = DnsManager::create_dns_query();
    assert_eq!(q.len(), 27);
    assert_eq!(&q[..12], &[0, 0, 1, 0, 0, 1, 0, 0, 0, 0, 0, 0]);
    assert_eq!(&q[12..18], b"\x05quad9");
    assert_eq!(&q[18..22], b"\x03net");
    assert_eq!(&q[22..], &[0, 0, 1, 0, 1]);
}

#[test]
fn add_duplicate_preset_is_refused() {
    let mut list = vec![preset("a", "First"), preset("b", "Second")];
    assert_eq!(CustomPresetsManager::add_custom_preset(&mut list, preset("a", "Other")), Err(PresetError::DuplicateId));
    assert_eq!(ids(&list), vec![("a", "First"), ("b", "Second")]);
    assert_eq!(PresetError::DuplicateId.message(), "Preset with this ID already exists");
    assert_eq!(CustomPresetsManager::add_custom_preset(&mut list, preset("c", "Third")), Ok(()));
    assert_eq!(ids(&list), vec![("a", "First"), ("b", "Second"), ("c", "Third")]);
}

#[test]
fn delete_missing_preset_is_noop() {
    let mut list = vec![preset("a", "First"), preset("b", "Second")];
    CustomPresetsManager::delete_custom_preset(&mut list, "zzz");
    assert_eq!(ids(&list), vec![("a", "First"), ("b", "Second")]);
    CustomPresetsManager::delete_custom_preset(&mut list, "a");
    assert_eq!(ids(&list), vec![("b", "Second")]);
}

#[test]
fn update_preset() {
    let mut list = vec![preset("a", "First"), preset("b", "Second")];
    assert_eq!(CustomPresetsManager::update_custom_preset(&mut list, preset("x", "New")), Err(PresetError::NotFound));
    assert_eq!(PresetError::NotFound.message(), "Preset not found");
    assert_eq!(ids(&list), vec![("a", "First"), ("b", "Second")]);
    assert_eq!(CustomPresetsManager::update_custom_preset(&mut list, preset("b", "Renamed")), Ok(()));
    assert_eq!(ids(&list), vec![("a", "First"), ("b", "Renamed")]);
}

#[test]
fn adapters_with_configurations() {
    let recs = vec![
        AdapterRecord { name: "Wi-Fi".to_string(), is_connected: true, is_enabled: true },
        AdapterRecord { name: "Ethernet".to_string(), is_connected: true, is_enabled: false },
    ];
    let m = DnsManager::new();
    let v = WindowsVersion { major: 10, minor: 0, build: 0, supports_doh: false };
    let cfg = m.get_current_dns("Statically Configured DNS Servers: 8.8.8.8\n", "", v, None);
    let out = NetworkManager::new().get_adapters(recs, vec![Some(cfg), None]);
    assert_eq!(out.len(), 2);
    assert_eq!(out[0].name, "Wi-Fi");
    assert_eq!(out[0].description, "Wi-Fi");
    assert!(out[0].is_connected);
    assert_eq!(out[0].current_dns.primary.as_deref(), Some("8.8.8.8"));
    assert!(!out[1].is_connected);
    assert!(out[1].current_dns.is_dhcp);
    assert_eq!(out[1].current_dns.primary, None);
}
