use xen_guest_agent::agent::DummyNetworkSource;
use xen_guest_agent::cache_publish::Schema;
use xen_guest_agent::metrics::{OsBaseInfo, OsInfo};
use xen_guest_agent::xs_request::XsRequest;
use xen_guest_agent::agent::meminfo_kb;
use xen_guest_agent::agent::{initial_mem_total, memory_report_with_total};
use xen_guest_agent::report_text::text_pieces;
use xen_guest_agent::agent::{
    publisher_kind_of, AgentPublisher, DummyMemorySource, MemoryError, MemoryPlugin,
    MemorySource, NetworkPlugin, NetworkPluginKind, PublisherKind, SentinelWatch,
    WindowsDebugLogger, WindowsMemorySource,
};
use xen_guest_agent::metrics::{GuestMetric, IpAddr, OsVersion};
use xen_guest_agent::os::{collect_kernel, collect_os, windows_kernel, windows_os_base};
use xen_guest_agent::report_text::report_pieces_of;
use xen_guest_agent::text::{decimal, mac_string, parse_u32};

#[test]
fn decimal_text_and_parsing() {
    assert_eq!(decimal(0), "0");
    assert_eq!(decimal(18446744073709551615), "18446744073709551615");
    assert_eq!(parse_u32("42"), Some(42));
    assert_eq!(parse_u32("+7"), Some(7));
    assert_eq!(parse_u32("4294967295"), Some(4294967295));
    assert_eq!(parse_u32("4294967296"), None);
    assert_eq!(parse_u32(""), None);
    assert_eq!(parse_u32("-1"), None);
    assert_eq!(parse_u32(" 1"), None);
    assert_eq!(parse_u32(&decimal(123456)), Some(123456));
}

#[test]
fn address_texts() {
    assert_eq!(IpAddr::V4(0xC0A8_010A).to_text(), "192.168.1.10");
    assert_eq!(IpAddr::V4(0).to_text(), "0.0.0.0");
    assert_eq!(IpAddr::V6(1).to_text(), "::1");
    assert_eq!(IpAddr::V6(0).to_text(), "::");
    assert_eq!(IpAddr::V6(0x2001_0db8_0000_0000_0000_0000_0000_0001).to_text(), "2001:db8::1");
    assert_eq!(IpAddr::V6(0x2001_0db8_0000_0001_0000_0000_0000_0001).to_text(), "2001:db8:0:1::1");
    assert_eq!(IpAddr::V6(0x2001_0db8_0001_0001_0001_0001_0001_0001).to_text(), "2001:db8:1:1:1:1:1:1");
    assert_eq!(IpAddr::V6(0x0000_0000_0000_0000_0000_ffff_c000_0201).to_text(), "::ffff:192.0.2.1");
    assert_eq!(IpAddr::V6(0x2001_0db8_0000_0000_0001_0000_0000_0001).to_text(), "2001:db8::1:0:0:1");
}

#[test]
fn mac_texts() {
    assert_eq!(mac_string(&vec![0x00, 0x16, 0x3e, 0xab, 0xcd, 0xef]), "00:16:3e:ab:cd:ef");
    assert_eq!(mac_string(&vec![]), "");
    assert_eq!(mac_string(&vec![0x0a]), "0a");
}

#[test]
fn os_version_texts() {
    assert_eq!(OsVersion::Numbered(12, 5, 0).to_text(), "12.5.0");
    assert_eq!(OsVersion::Custom("rolling".to_string()).to_text(), "rolling");
}

#[test]
fn kernel_and_os_of_this_machine() {
    let k = collect_kernel().unwrap().unwrap();
    assert!(!k.release.is_empty());
    let os = collect_os();
    assert_eq!(os.os_name, os.os_type);
    assert!(!os.os_type.is_empty());
}

#[test]
fn windows_os_reports() {
    let b = windows_os_base((10, 0, 19045), None);
    assert_eq!(b.os_type, "Windows");
    assert_eq!(b.os_name, "Windows 10.0.19045");
    let b = windows_os_base((10, 0, 22631), Some("Microsoft Windows 11 Pro".to_string()));
    assert_eq!(b.os_name, "Microsoft Windows 11 Pro");
    assert_eq!(windows_kernel((6, 1, 7601)).release, "6.1.7601");
}

#[test]
fn report_pieces_replace_invalid_utf8() {
    let pieces = report_pieces_of(&[b'a', 0xC3, b'b']);
    assert_eq!(pieces, vec!["ab".to_string()]);
    let pieces = report_pieces_of("é\u{7f}\u{ff}\u{100}\u{1f}x".as_bytes());
    assert_eq!(pieces, vec!["é\u{7f}x".to_string()]);
    let pieces = report_pieces_of(b"\0\0");
    assert!(pieces.is_empty());
}

#[test]
fn agent_choices() {
    assert_eq!(PublisherKind::default(), PublisherKind::Xenstore);
    assert_eq!(NetworkPluginKind::default(), NetworkPluginKind::Simple);
    assert_eq!(publisher_kind_of("console"), PublisherKind::Console);
    assert_eq!(publisher_kind_of("rfc"), PublisherKind::XenstoreRfc);
    assert_eq!(publisher_kind_of("std"), PublisherKind::Xenstore);
    assert_eq!(publisher_kind_of(""), PublisherKind::Xenstore);
    assert!(matches!(AgentPublisher::new(PublisherKind::Console), AgentPublisher::Console(_)));
    assert!(matches!(AgentPublisher::new(PublisherKind::Xenstore), AgentPublisher::XenstoreStd(_)));
    assert!(matches!(AgentPublisher::new(PublisherKind::XenstoreRfc), AgentPublisher::XenstoreRfc(_)));
    assert!(matches!(NetworkPlugin::new(NetworkPluginKind::Netlink), NetworkPlugin::Netlink(_)));
    assert!(matches!(NetworkPlugin::new(NetworkPluginKind::Simple), NetworkPlugin::Simple(_)));
}

#[test]
fn sentinel_skips_first_event() {
    let mut w = SentinelWatch::new();
    assert!(!w.on_event());
    assert!(w.on_event());
    assert!(w.on_event());
}

#[test]
fn memory_reports() {
    let mut d = DummyMemorySource;
    assert_eq!(d.get_total_kb(), Err(MemoryError::Unsupported));
    assert_eq!(d.get_available_kb(), Err(MemoryError::Unsupported));
    let mut w = WindowsMemorySource { total_phys: 8, avail_phys: 3 };
    assert_eq!(w.get_total_kb(), Ok(8));
    assert_eq!(w.get_available_kb(), Ok(3));
    match MemoryPlugin::report(3, 8) {
        GuestMetric::Memory(m) => {
            assert_eq!(m.mem_free, 3);
            assert_eq!(m.mem_total, 8);
        },
        _ => panic!("memory report expected"),
    }
}

#[test]
fn debug_log_lines() {
    let l = WindowsDebugLogger { prefix: "[xen-guest-agent]".to_string() };
    assert!(l.enabled());
    assert_eq!(l.format_line("INFO", "started"), "[xen-guest-agent] INFO: started\r\n");
}

#[test]
fn meminfo_fields() {
    let text = "MemTotal:       16318240 kB\nMemFree:         1234567 kB\nMemAvailable:    9876543 kB\n";
    assert_eq!(meminfo_kb(text, "MemTotal"), Some(16318240));
    assert_eq!(meminfo_kb(text, "MemAvailable"), Some(9876543));
    assert_eq!(meminfo_kb(text, "Mem"), None);
    assert_eq!(meminfo_kb(text, "SwapTotal"), None);
    assert_eq!(meminfo_kb("MemTotal: lots\n", "MemTotal"), None);
}

#[test]
fn memory_total_read_once() {
    assert_eq!(initial_mem_total(Ok(4)), Ok(Some(4)));
    assert_eq!(initial_mem_total(Err(MemoryError::Unsupported)), Ok(None));
    assert_eq!(initial_mem_total(Err(MemoryError::Failed)), Err(MemoryError::Failed));
    match memory_report_with_total(None, 7) {
        GuestMetric::Memory(m) => {
            assert_eq!(m.mem_free, 7);
            assert_eq!(m.mem_total, 0);
        },
        _ => panic!("memory report expected"),
    }
}

#[test]
fn clipboard_text_pieces() {
    assert_eq!(text_pieces("a\r\nb\u{e9}c\n\n"), vec!["a".to_string(), "b\u{e9}c".to_string()]);
    let long = "\u{e9}".repeat(600);
    let pieces = text_pieces(&long);
    assert_eq!(pieces, vec!["\u{e9}".repeat(500), "\u{e9}".repeat(100)]);
    assert_eq!(text_pieces("\u{20ac}1"), vec!["1".to_string()]);
}

#[test]
fn index_schema_static_and_dummy_network() {
    let schema = Schema { protocol_version: "0.2.0".to_string() };
    let info = OsInfo {
        os_base_info: OsBaseInfo {
            os_type: "Alpine".to_string(),
            os_name: "Alpine".to_string(),
            os_version: OsVersion::Numbered(3, 19, 1),
        },
        kernel_info: None,
    };
    let r = schema.publish_static(&info);
    let kv: Vec<(String, String)> = r
        .iter()
        .map(|x| match x {
            XsRequest::Write { key, value } => (key.clone(), value.clone()),
            _ => panic!("writes expected"),
        })
        .collect();
    assert_eq!(
        kv,
        vec![
            ("data/xen-guest-agent".to_string(), "0.2.0".to_string()),
            ("data/os/name".to_string(), "Alpine 3.19.1".to_string()),
            ("data/os/version".to_string(), "3.19.1".to_string()),
            ("data/os/class".to_string(), "unix".to_string()),
        ]
    );
    assert!(DummyNetworkSource.collect_current().is_empty());
}
