use pipulse::metrics::{
    get_disk_percent, get_hostname, get_loadavg, get_memory_percent, get_net_info,
    get_uptime_str, percent, DiskUsage, Interface, IpAddress, NetSampler, TrafficCounter,
};
use pipulse::parse::{get_cpu_temp, parse_millidegrees};

fn iface(name: &str, addrs: Vec<IpAddress>) -> Interface {
    Interface { name: name.to_string(), addrs }
}

fn disk(mount: &str, total: u64, available: u64) -> DiskUsage {
    DiskUsage { mount_point: mount.to_string(), total, available }
}

#[test]
fn uptime_formats() {
    assert_eq!(get_uptime_str(0), "0m");
    assert_eq!(get_uptime_str(59), "0m");
    assert_eq!(get_uptime_str(12 * 60), "12m");
    assert_eq!(get_uptime_str(4 * 3600 + 12 * 60 + 5), "4h 12m");
    assert_eq!(get_uptime_str(2 * 86400 + 4 * 3600 + 12 * 60), "2d 4h 12m");
    assert_eq!(get_uptime_str(86400), "1d 0h 0m");
    assert_eq!(get_uptime_str(3600), "1h 0m");
}

#[test]
fn uptime_parts_add_up() {
    for secs in [0u64, 59, 61, 3599, 3600, 86399, 86400, 1_000_000] {
        let (d, h, m) = (secs / 86400, (secs % 86400) / 3600, (secs % 3600) / 60);
        assert!(h < 24 && m < 60);
        let t = d * 86400 + h * 3600 + m * 60;
        assert!(t <= secs && secs < t + 60);
    }
}

#[test]
fn memory_percent() {
    assert_eq!(get_memory_percent(0, 10), 0);
    assert_eq!(get_memory_percent(1000, 610), 61);
    assert_eq!(get_memory_percent(1000, 1000), 100);
    assert_eq!(get_memory_percent(3, 2), 66);
    assert_eq!(get_memory_percent(100, 250), 100);
    assert_eq!(get_memory_percent(u64::MAX, u64::MAX), 100);
}

#[test]
fn percent_is_bounded_and_monotone() {
    let mut last = 0;
    for used in 0..=300u64 {
        let p = percent(used, 200);
        assert!(p <= 100);
        assert!(p >= last);
        last = p;
    }
}

#[test]
fn disk_percent_of_root() {
    let disks = vec![disk("/boot", 100, 0), disk("//", 1000, 720), disk("/", 10, 0)];
    assert_eq!(get_disk_percent(&disks), 28);
    assert_eq!(get_disk_percent(&vec![disk("/home", 10, 0)]), 0);
    assert_eq!(get_disk_percent(&vec![]), 0);
    assert_eq!(get_disk_percent(&vec![disk("/", 0, 0)]), 0);
    // more free space than size reads as unused
    assert_eq!(get_disk_percent(&vec![disk("/", 10, 20)]), 0);
}

#[test]
fn hostname_or_question_mark() {
    assert_eq!(get_hostname(Some("pi".to_string())), "pi");
    assert_eq!(get_hostname(None), "?");
}

#[test]
fn load_average_text() {
    assert_eq!(get_loadavg(45, 38, 31), "0.45 0.38 0.31");
    assert_eq!(get_loadavg(1207, 100, 5), "12.07 1.00 0.05");
}

#[test]
fn net_info_skips_virtual_and_loopback() {
    let ifaces = vec![
        iface("lo", vec![IpAddress::V4(127, 0, 0, 1)]),
        iface("docker0", vec![IpAddress::V4(172, 17, 0, 1)]),
        iface("veth12", vec![IpAddress::V4(10, 0, 0, 2)]),
        iface("eth0", vec![IpAddress::V6, IpAddress::V4(127, 1, 1, 1)]),
        iface("wlan0", vec![IpAddress::V6, IpAddress::V4(192, 168, 1, 42)]),
        iface("eth1", vec![IpAddress::V4(10, 1, 2, 3)]),
    ];
    let (ip, name) = get_net_info(&ifaces);
    assert_eq!(ip, "192.168.1.42");
    assert_eq!(name, "wlan0");
}

#[test]
fn net_info_without_address() {
    let ifaces = vec![iface("lo", vec![IpAddress::V4(127, 0, 0, 1)]), iface("eth0", vec![IpAddress::V6])];
    assert_eq!(get_net_info(&ifaces), ("no ip".to_string(), String::new()));
    assert_eq!(get_net_info(&vec![]), ("no ip".to_string(), String::new()));
}

#[test]
fn thermal_zone_text() {
    assert_eq!(parse_millidegrees("47312\n"), Some(47312));
    assert_eq!(parse_millidegrees("  -5 \t"), Some(-5));
    assert_eq!(parse_millidegrees("+7"), Some(7));
    assert_eq!(parse_millidegrees("007"), Some(7));
    assert_eq!(parse_millidegrees("\u{a0}42\u{3000}"), Some(42));
    assert_eq!(parse_millidegrees("2147483647"), Some(i32::MAX));
    assert_eq!(parse_millidegrees("-2147483648"), Some(i32::MIN));
}

#[test]
fn thermal_zone_text_rejected() {
    assert_eq!(parse_millidegrees(""), None);
    assert_eq!(parse_millidegrees("  \n"), None);
    assert_eq!(parse_millidegrees("-"), None);
    assert_eq!(parse_millidegrees("+"), None);
    assert_eq!(parse_millidegrees("+-1"), None);
    assert_eq!(parse_millidegrees("12a"), None);
    assert_eq!(parse_millidegrees("1 2"), None);
    assert_eq!(parse_millidegrees("2147483648"), None);
    assert_eq!(parse_millidegrees("-2147483649"), None);
    assert_eq!(parse_millidegrees("99999999999999999999"), None);
}

#[test]
fn thermal_zone_agrees_with_std_parse() {
    for t in ["0", " 1\n", "-0", "+0", "x", "1.5", "  ", "-2147483648", "2147483648", "\u{85}9"] {
        assert_eq!(parse_millidegrees(t), t.trim().parse::<i32>().ok());
    }
}

#[test]
fn thermal_zone_roundtrip() {
    for n in [0i32, 1, -1, 47312, i32::MAX, i32::MIN] {
        assert_eq!(parse_millidegrees(&format!("{}\n", n)), Some(n));
    }
}

#[test]
fn cpu_temp_prefers_sensors() {
    assert_eq!(get_cpu_temp(&vec![None, Some(51_000), Some(60_000)], Some("40000\n".to_string())), Some(51_000));
    assert_eq!(get_cpu_temp(&vec![None], Some("40000\n".to_string())), Some(40_000));
    assert_eq!(get_cpu_temp(&vec![], Some("junk".to_string())), None);
    assert_eq!(get_cpu_temp(&vec![], None), None);
}

#[test]
fn traffic_deltas() {
    let c = |rx: u64, tx: u64| {
        vec![
            TrafficCounter { name: "lo".to_string(), rx_total: 1_000_000, tx_total: 1_000_000 },
            TrafficCounter { name: "eth0".to_string(), rx_total: rx, tx_total: tx },
            TrafficCounter { name: "wlan0".to_string(), rx_total: 5, tx_total: 5 },
        ]
    };
    let mut s = NetSampler::new();
    assert_eq!(s.sample(&c(100, 50)), (0, 0));
    assert_eq!(s.sample(&c(1_100, 80)), (1_000, 30));
    // a counter going back reads as no traffic
    assert_eq!(s.sample(&c(10, 90)), (0, 10));
}

#[test]
fn root_mount_compares_path_components() {
    for root in ["/", "//", "/.", "/./", "/./.", "///"] {
        assert_eq!(get_disk_percent(&vec![disk(root, 100, 25)]), 75, "{root}");
        assert_eq!(std::path::Path::new(root), std::path::Path::new("/"));
    }
    for other in ["", ".", "/a", "/..", "/.a", "./", "/boot/"] {
        assert_eq!(get_disk_percent(&vec![disk(other, 100, 25)]), 0, "{other}");
        assert_ne!(std::path::Path::new(other), std::path::Path::new("/"));
    }
}
