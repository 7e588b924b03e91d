use dns_changer::dns::DnsManager;
use dns_changer::network::NetworkManager;
use dns_changer::parser::{is_dhcp_output, parse_dns_servers, parse_doh_settings, select_servers};
use dns_changer::version::{get_windows_name, parse_windows_version};

const ENGLISH: &str = "\r\nConfiguration for interface \"Ethernet\"\r\n    Statically Configured DNS Servers:    8.8.8.8\r\n                                          8.8.4.4\r\n    Register with which suffix:           Primary only\r\n\r\n";

const RUSSIAN: &str = "\nНастройка интерфейса \"Ethernet\"\n    Список статически настроенных DNS-серверов:  8.8.8.8\n                                          8.8.4.4\n    Регистрация с суффиксом:           Только основной\n\n";

const DHCP_ONLY: &str = "\nConfiguration for interface \"Wi-Fi\"\n    DNS servers configured through DHCP:  None\n    Register with which suffix:           Primary only\n\n";

#[test]
fn english_static_section() {
    assert_eq!(parse_dns_servers(ENGLISH), vec!["8.8.8.8".to_string(), "8.8.4.4".to_string()]);
}

#[test]
fn russian_static_section() {
    assert_eq!(parse_dns_servers(RUSSIAN), vec!["8.8.8.8".to_string(), "8.8.4.4".to_string()]);
    assert_eq!(parse_dns_servers(RUSSIAN), parse_dns_servers(ENGLISH));
}

#[test]
fn dhcp_only_output() {
    assert!(parse_dns_servers(DHCP_ONLY).is_empty());
    assert!(is_dhcp_output(DHCP_ONLY));
    assert!(!is_dhcp_output(ENGLISH));
    let both = "    DNS servers configured through DHCP:  None\n    Statically Configured DNS Servers:    1.1.1.1\n";
    assert!(!is_dhcp_output(both));
}

#[test]
fn unrecognised_output_falls_back_to_whole_text() {
    let out = "Something unexpected\nserver 9.9.9.9 answered\nand 2001:db8::1 too\n";
    assert_eq!(parse_dns_servers(out), vec!["9.9.9.9".to_string(), "2001:db8::1".to_string()]);
}

#[test]
fn section_skips_sentinels_and_duplicates() {
    let out = "    Statically Configured DNS Servers:    1.1.1.1\n          127.0.0.1\n          1.1.1.1\n          1.0.0.1\n\n          9.9.9.9\n";
    assert_eq!(parse_dns_servers(out), vec!["1.1.1.1".to_string(), "1.0.0.1".to_string()]);
}

#[test]
fn section_ends_at_register_line() {
    let out = "Statically Configured DNS Servers: 1.1.1.1\n    Register with which suffix: Primary only\n    1.0.0.1\n";
    assert_eq!(parse_dns_servers(out), vec!["1.1.1.1".to_string()]);
}

#[test]
fn ipv6_section() {
    let out = "    Statically Configured DNS Servers:    2606:4700:4700::1111\n                                          2606:4700:4700::1001\n\n";
    assert_eq!(
        parse_dns_servers(out),
        vec!["2606:4700:4700::1111".to_string(), "2606:4700:4700::1001".to_string()]
    );
}

#[test]
fn empty_output_has_no_servers() {
    assert!(parse_dns_servers("").is_empty());
    assert!(!is_dhcp_output(""));
}

#[test]
fn valid_ipv4_candidates() {
    for ip in ["8.8.8.8", "1.1.1.1", "255.255.255.254", "10.0.0.1", "1.2.3.0"] {
        assert!(DnsManager::is_valid_ip(ip), "{}", ip);
    }
}

#[test]
fn sentinel_and_malformed_candidates() {
    for ip in ["0.1.2.3", "127.0.0.1", "0.0.0.0", "255.255.255.255", "256.1.1.1", "1.2.3", "1.2.3.4.5", "a.b.c.d", ""] {
        assert!(!DnsManager::is_valid_ip(ip), "{}", ip);
    }
}

#[test]
fn colon_tokens_always_accepted() {
    for ip in ["::1", "zz:zz", ":", "not an address:", "fe80::1%12"] {
        assert!(DnsManager::is_valid_ip(ip), "{}", ip);
    }
}

#[test]
fn windows_names() {
    assert_eq!(get_windows_name(10, 0, 22000), "11");
    assert_eq!(get_windows_name(10, 0, 19041), "10 (20H1+)");
    assert_eq!(get_windows_name(10, 0, 0), "10");
    assert_eq!(get_windows_name(6, 1, 0), "7");
    assert_eq!(get_windows_name(10, 0, 17763), "10 (1809)");
    assert_eq!(get_windows_name(5, 2, 3790), "XP 64-bit / Server 2003");
    assert_eq!(DnsManager::get_windows_name(12, 34, 0), "12.34");
    assert_eq!(DnsManager::get_windows_name(4, 0, 0), "4.0");
}

#[test]
fn version_banner() {
    let v = parse_windows_version("\r\nMicrosoft Windows [Version 10.0.22631.4460]\r\n");
    assert_eq!((v.major, v.minor, v.build, v.supports_doh), (10, 0, 22631, true));
    let v = DnsManager::new().get_windows_version("Microsoft Windows [Version 10.0.19045.3803]");
    assert_eq!((v.major, v.minor, v.build, v.supports_doh), (10, 0, 19045, false));
}

#[test]
fn version_banner_unreadable() {
    let v = parse_windows_version("no banner here");
    assert_eq!((v.major, v.minor, v.build, v.supports_doh), (10, 0, 0, false));
    let v = parse_windows_version("Version 10.0.99999999999");
    assert_eq!((v.major, v.minor, v.build, v.supports_doh), (10, 0, 0, false));
}

#[test]
fn doh_report() {
    let out = "Encryption settings for 8.8.8.8\n  DNS-over-HTTPS template : https://dns.google/dns-query\n  Auto-upgrade            : yes\n";
    assert_eq!(parse_doh_settings(out), (true, Some("https://dns.google/dns-query".to_string())));
    assert_eq!(parse_doh_settings("DISABLED\nhttps://x"), (false, None));
    assert_eq!(parse_doh_settings("enabled\nno template"), (true, None));
}

#[test]
fn adapter_list() {
    let out = "\nAdmin State    State          Type             Interface Name\n-------------------------------------------------------------------------\nEnabled        Connected      Dedicated        Wi-Fi\nEnabled        Disconnected   Dedicated        Ethernet 2\nEnabled        Connected      Dedicated        vEthernet (Default Switch)\nDisabled       connected      Dedicated        Local   Area Connection\nВключено       Подключено     Выделенный       Беспроводная сеть\nshort line\n";
    let recs = NetworkManager::new().parse_adapters(out);
    let got: Vec<(String, bool, bool)> = recs.iter().map(|r| (r.name.clone(), r.is_connected, r.is_enabled)).collect();
    assert_eq!(
        got,
        vec![
            ("Wi-Fi".to_string(), true, true),
            ("Ethernet 2".to_string(), false, true),
            ("Local Area Connection".to_string(), true, false),
            ("Беспроводная сеть".to_string(), true, true),
        ]
    );
}

#[test]
fn header_line_repeats_are_dropped() {
    let out = "    Statically Configured DNS Servers:    1.1.1.1 1.1.1.1 1.0.0.1\n          1.0.0.1\n\n";
    assert_eq!(parse_dns_servers(out), vec!["1.1.1.1".to_string(), "1.0.0.1".to_string()]);
}

fn strs(v: &[&str]) -> Vec<String> {
    v.iter().map(|s| s.to_string()).collect()
}

#[test]
fn section_scan_with_given_tokens() {
    let out = "intro\nStatically Configured DNS Servers: x\n    y\nnot indented\n    z\n\n    w\n";
    let tokens = vec![
        strs(&["9.9.9.9"]),
        strs(&["1.1.1.1", "127.0.0.1", "1.1.1.1"]),
        strs(&["1.0.0.1", "1.1.1.1"]),
        strs(&["8.8.8.8"]),
        strs(&["::1"]),
        strs(&[]),
        strs(&["4.4.4.4"]),
    ];
    let fallback = strs(&["5.5.5.5"]);
    assert_eq!(select_servers(out, &tokens, &fallback), strs(&["1.1.1.1", "1.0.0.1", "::1"]));
    let none = vec![strs(&[]), strs(&[])];
    assert_eq!(select_servers(out, &none, &strs(&["5.5.5.5", "0.0.0.0", "5.5.5.5", "fe80::1"])), strs(&["5.5.5.5", "fe80::1"]));
    assert_eq!(select_servers("", &vec![], &vec![]), Vec::<String>::new());
}

#[test]
fn adapter_states_ignore_case_in_both_languages() {
    let out = "h1\nh2\nh3\nВКЛЮЧЕНО        подключено     Выделенный       Сеть 1\nENABLED        CONNECTED      Dedicated        Ethernet\nОтключено      Отключено      Выделенный       Сеть 2\n";
    let recs = NetworkManager::new().parse_adapters(out);
    let got: Vec<(String, bool, bool)> = recs.iter().map(|r| (r.name.clone(), r.is_connected, r.is_enabled)).collect();
    assert_eq!(
        got,
        vec![
            ("Сеть 1".to_string(), true, true),
            ("Ethernet".to_string(), true, true),
            ("Сеть 2".to_string(), false, false),
        ]
    );
}
