use xen_guest_agent::console::ConsolePublisher;
use xen_guest_agent::metrics::{
    GuestMetric, IpAddr, KernelInfo, MemoryInfo, NetEvent, NetEventOp, NetInterface, OsBaseInfo,
    OsInfo, OsVersion, ToolstackNetInterface,
};
use xen_guest_agent::xs_request::{PublishError, XsFailure, XsRequest};
use xen_guest_agent::xs_rfc::{munged_address, AgentInfo, XenstoreRfc};
use xen_guest_agent::xs_std::{get_ip_slot, AgentVersion, XenstoreStd, NUM_IFACE_IPS};

fn version() -> AgentVersion {
    AgentVersion {
        major: "0".to_string(),
        minor: "4".to_string(),
        micro: "1".to_string(),
        build: String::new(),
        package: "0.4.1".to_string(),
    }
}

fn vif_iface(uuid: u128, index: u32, vif: u32) -> NetInterface {
    NetInterface {
        uuid,
        index,
        name: format!("eth{index}"),
        toolstack_iface: ToolstackNetInterface::Vif(vif),
    }
}

fn write(key: &str, value: &str) -> (String, String) {
    (key.to_string(), value.to_string())
}

fn as_writes(reqs: &[XsRequest]) -> Vec<(String, String)> {
    reqs.iter()
        .map(|r| match r {
            XsRequest::Write { key, value } => (key.clone(), value.clone()),
            XsRequest::Remove { key } => ("-".to_string() + key, String::new()),
            XsRequest::WatchOnce { key } => ("?".to_string() + key, String::new()),
            XsRequest::WriteBalloon => ("balloon".to_string(), String::new()),
        })
        .collect()
}

fn os_info(version: OsVersion, kernel: Option<&str>) -> OsInfo {
    OsInfo {
        os_base_info: OsBaseInfo {
            os_type: "Debian".to_string(),
            os_name: "Debian".to_string(),
            os_version: version,
        },
        kernel_info: kernel.map(|r| KernelInfo { release: r.to_string() }),
    }
}

#[test]
fn std_ip_slots_first_free_then_same() {
    let mut list: Vec<Option<IpAddr>> = vec![None; NUM_IFACE_IPS];
    let a = IpAddr::V4(0xC0A8_0001);
    let b = IpAddr::V4(0xC0A8_0002);
    assert_eq!(get_ip_slot(a, &mut list), Ok(0));
    assert_eq!(get_ip_slot(b, &mut list), Ok(1));
    assert_eq!(get_ip_slot(a, &mut list), Ok(0));
    assert_eq!(list[0], Some(a));
    assert_eq!(list[1], Some(b));
}

#[test]
fn std_ip_slots_full() {
    let mut list: Vec<Option<IpAddr>> = vec![None; NUM_IFACE_IPS];
    for i in 0..NUM_IFACE_IPS as u32 {
        assert_eq!(get_ip_slot(IpAddr::V4(i), &mut list), Ok(i as usize));
    }
    assert_eq!(get_ip_slot(IpAddr::V4(100), &mut list), Err(PublishError::NoFreeSlot));
    assert_eq!(get_ip_slot(IpAddr::V4(3), &mut list), Ok(3));
}

#[test]
fn std_add_then_remove_address_uses_same_key() {
    let mut xs = XenstoreStd::new(version());
    let r = xs.add_iface(vif_iface(7, 2, 0));
    assert_eq!(as_writes(&r), vec![write("attr/vif/0", "")]);
    let addr = IpAddr::V4(0xC0A8_010A);
    let add = xs
        .publish_netevent(&NetEvent { iface_id: 7, op: NetEventOp::AddIp(addr) })
        .unwrap();
    assert_eq!(as_writes(&add), vec![write("attr/vif/0/ipv4/0", "192.168.1.10")]);
    let v6 = IpAddr::V6(0xfe80_0000_0000_0000_0000_0000_0000_0001);
    let add6 = xs
        .publish_netevent(&NetEvent { iface_id: 7, op: NetEventOp::AddIp(v6) })
        .unwrap();
    assert_eq!(as_writes(&add6), vec![write("attr/vif/0/ipv6/0", "fe80::1")]);
    let rm = xs
        .publish_netevent(&NetEvent { iface_id: 7, op: NetEventOp::RmIp(addr) })
        .unwrap();
    assert_eq!(as_writes(&rm), vec![("-attr/vif/0/ipv4/0".to_string(), String::new())]);
}

#[test]
fn std_address_keeps_its_slot() {
    let mut xs = XenstoreStd::new(version());
    xs.add_iface(vif_iface(7, 2, 4));
    let a = IpAddr::V4(0x0A00_0001);
    let b = IpAddr::V4(0x0A00_0002);
    let ev = |op| NetEvent { iface_id: 7, op };
    let add = xs.publish_netevent(&ev(NetEventOp::AddIp(a))).unwrap();
    assert_eq!(as_writes(&add), vec![write("attr/vif/4/ipv4/0", "10.0.0.1")]);
    let rm = xs.publish_netevent(&ev(NetEventOp::RmIp(a))).unwrap();
    assert_eq!(as_writes(&rm), vec![("-attr/vif/4/ipv4/0".to_string(), String::new())]);
    let add_b = xs.publish_netevent(&ev(NetEventOp::AddIp(b))).unwrap();
    assert_eq!(as_writes(&add_b), vec![write("attr/vif/4/ipv4/1", "10.0.0.2")]);
    let again = xs.publish_netevent(&ev(NetEventOp::AddIp(a))).unwrap();
    assert_eq!(as_writes(&again), vec![write("attr/vif/4/ipv4/0", "10.0.0.1")]);
}

#[test]
fn std_unknown_interface_is_refused() {
    let mut xs = XenstoreStd::new(version());
    let r = xs.publish_netevent(&NetEvent { iface_id: 1, op: NetEventOp::AddIp(IpAddr::V4(1)) });
    assert!(matches!(r, Err(PublishError::UnknownInterface)));
}

#[test]
fn std_non_vif_and_mac_events_ask_nothing() {
    let mut xs = XenstoreStd::new(version());
    xs.add_iface(NetInterface {
        uuid: 3,
        index: 1,
        name: "lo".to_string(),
        toolstack_iface: ToolstackNetInterface::Unknown,
    });
    let r = xs.publish_netevent(&NetEvent { iface_id: 3, op: NetEventOp::AddIp(IpAddr::V4(1)) });
    assert!(r.unwrap().is_empty());
    xs.add_iface(vif_iface(4, 2, 1));
    let r = xs.publish_netevent(&NetEvent {
        iface_id: 4,
        op: NetEventOp::AddMac("aa:bb:cc:dd:ee:ff".to_string()),
    });
    assert!(r.unwrap().is_empty());
}

#[test]
fn std_eleventh_address_has_no_slot() {
    let mut xs = XenstoreStd::new(version());
    xs.add_iface(vif_iface(9, 3, 2));
    for i in 0..10u32 {
        let r = xs.publish_netevent(&NetEvent { iface_id: 9, op: NetEventOp::AddIp(IpAddr::V4(i)) });
        assert!(r.is_ok());
    }
    let r = xs.publish_netevent(&NetEvent { iface_id: 9, op: NetEventOp::AddIp(IpAddr::V4(99)) });
    assert!(matches!(r, Err(PublishError::NoFreeSlot)));
}

#[test]
fn std_memory_in_megabytes() {
    let xs = XenstoreStd::new(version());
    let r = xs.publish_memory(&MemoryInfo { mem_free: 2048, mem_total: 4_194_304 });
    assert_eq!(
        as_writes(&r),
        vec![write("data/meminfo_free", "2"), write("data/meminfo_total", "4096")]
    );
}

#[test]
fn std_osinfo_requests() {
    let mut xs = XenstoreStd::new(version());
    let r = xs.publish_osinfo(&os_info(OsVersion::Numbered(12, 5, 0), Some("6.1.0-18-amd64")));
    assert_eq!(
        as_writes(&r),
        vec![
            write("attr/PVAddons/Installed", "1"),
            write("attr/PVAddons/MajorVersion", "0"),
            write("attr/PVAddons/MinorVersion", "4"),
            write("attr/PVAddons/MicroVersion", "1"),
            write("attr/PVAddons/BuildVersion", "proto-0.4.1"),
            write("data/os_distro", "Debian"),
            write("data/os_name", "Debian 12.5.0"),
            write("data/os_majorver", "12"),
            write("data/os_minorver", "5"),
            write("data/os_buildver", "0"),
            write("data/os_uname", "6.1.0-18-amd64"),
            ("balloon".to_string(), String::new()),
        ]
    );
    assert_eq!(xs.on_balloon_result(Err(XsFailure::PermissionDenied)), Ok(()));
    let r = xs.publish_osinfo(&os_info(OsVersion::Custom("rolling".to_string()), None));
    assert_eq!(
        as_writes(&r),
        vec![
            write("attr/PVAddons/Installed", "1"),
            write("attr/PVAddons/MajorVersion", "0"),
            write("attr/PVAddons/MinorVersion", "4"),
            write("attr/PVAddons/MicroVersion", "1"),
            write("attr/PVAddons/BuildVersion", "proto-0.4.1"),
            write("data/os_distro", "Debian"),
            write("data/os_name", "Debian rolling"),
        ]
    );
}

#[test]
fn std_balloon_other_failure_is_error() {
    let mut xs = XenstoreStd::new(version());
    assert_eq!(xs.on_balloon_result(Err(XsFailure::Other)), Err(XsFailure::Other));
    let r = xs.publish_osinfo(&os_info(OsVersion::Numbered(1, 2, 3), None));
    assert!(matches!(r.last(), Some(XsRequest::WriteBalloon)));
}

#[test]
fn std_clipboard_report_pieces() {
    let xs = XenstoreStd::new(version());
    let mut data = b"ab\x01c\r\nline2\0\0".to_vec();
    let long = vec![b'x'; 1500];
    data.extend_from_slice(b"\n");
    data.extend_from_slice(&long);
    let r = xs.publish_clipboard(&data);
    let w = as_writes(&r);
    let key = "data/report_clipboard";
    let wait = ("?data/report_clipboard".to_string(), String::new());
    assert_eq!(
        w,
        vec![
            write(key, "abc"),
            wait.clone(),
            write(key, "line2"),
            wait.clone(),
            (key.to_string(), "x".repeat(1000)),
            wait.clone(),
            (key.to_string(), "x".repeat(500)),
            wait.clone(),
            write(key, ""),
            wait,
        ]
    );
}

#[test]
fn std_handle_plans() {
    let mut xs = XenstoreStd::new(version());
    let plan = xs.handle(GuestMetric::CleanupIfaces).unwrap();
    assert!(!plan.best_effort);
    assert_eq!(as_writes(&plan.requests), vec![("-attr/vif".to_string(), String::new())]);
    let plan = xs.handle(GuestMetric::AddIface(vif_iface(5, 1, 3))).unwrap();
    assert_eq!(as_writes(&plan.requests), vec![write("attr/vif/3", "")]);
    let plan = xs.handle(GuestMetric::RmIface(5)).unwrap();
    assert_eq!(as_writes(&plan.requests), vec![("-attr/vif/3".to_string(), String::new())]);
    let plan = xs.handle(GuestMetric::RmIface(5)).unwrap();
    assert!(plan.requests.is_empty());
    let plan = xs.handle(GuestMetric::GetClipboard(b"hi".to_vec())).unwrap();
    assert!(plan.best_effort);
    let r = xs.handle(GuestMetric::Network(NetEvent { iface_id: 5, op: NetEventOp::RmIp(IpAddr::V4(1)) }));
    assert!(matches!(r, Err(PublishError::UnknownInterface)));
}

fn agent_info(pre: &str, vendor: Option<&str>) -> AgentInfo {
    AgentInfo {
        version: "0.5.0".to_string(),
        vendor: vendor.map(|v| v.to_string()),
        major: "0".to_string(),
        minor: "5".to_string(),
        patch: "0".to_string(),
        pre: pre.to_string(),
    }
}

#[test]
fn rfc_munged_addresses() {
    assert_eq!(munged_address(IpAddr::V4(0xC0A8_010A)), "ipv4/192_168_1_10");
    assert_eq!(
        munged_address(IpAddr::V6(0xfe80_0000_0000_0000_0000_0000_0000_0001)),
        "ipv6/fe80__1"
    );
}

#[test]
fn rfc_osinfo_requests() {
    let xs = XenstoreRfc::new(agent_info("", None));
    let r = xs.publish_osinfo(&os_info(OsVersion::Numbered(12, 5, 0), Some("6.1.0")));
    assert_eq!(
        as_writes(&r),
        vec![
            write("data/xen-guest-agent", "0.5.0"),
            write("data/xen-guest-agent/major", "0"),
            write("data/xen-guest-agent/minor", "5"),
            write("data/xen-guest-agent/patch", "0"),
            write("data/xen-guest-agent/channel", "stable"),
            write("data/os/name", "Debian 12.5.0"),
            write("data/os/version", "12.5.0"),
            write("data/os/class", "unix"),
            write("data/os/unix/kernel-version", "6.1.0"),
        ]
    );
    let xs = XenstoreRfc::new(agent_info("beta1", Some("Vates")));
    let r = xs.publish_osinfo(&os_info(OsVersion::Custom("trixie".to_string()), None));
    let w = as_writes(&r);
    assert_eq!(w[1], write("data/xen-guest-agent/vendor", "Vates"));
    assert_eq!(w[5], write("data/xen-guest-agent/channel", "beta1"));
    assert_eq!(w.len(), 9);
}

#[test]
fn rfc_netevents() {
    let mut xs = XenstoreRfc::new(agent_info("", None));
    let r = xs.handle(GuestMetric::AddIface(vif_iface(11, 2, 1))).unwrap();
    assert_eq!(as_writes(&r), vec![write("data/net/1", "")]);
    let r = xs
        .handle(GuestMetric::Network(NetEvent { iface_id: 11, op: NetEventOp::AddIp(IpAddr::V4(0x0A00_0001)) }))
        .unwrap();
    assert_eq!(as_writes(&r), vec![write("data/net/1/ipv4/10_0_0_1", "")]);
    let r = xs
        .handle(GuestMetric::Network(NetEvent {
            iface_id: 11,
            op: NetEventOp::AddMac("00:16:3e:00:00:01".to_string()),
        }))
        .unwrap();
    assert_eq!(as_writes(&r), vec![write("data/net/1", "00:16:3e:00:00:01")]);
    let r = xs
        .handle(GuestMetric::Network(NetEvent { iface_id: 11, op: NetEventOp::RmMac(String::new()) }))
        .unwrap();
    assert_eq!(as_writes(&r), vec![("-data/net/1".to_string(), String::new())]);
    let r = xs.handle(GuestMetric::Memory(MemoryInfo { mem_free: 1, mem_total: 2 })).unwrap();
    assert!(r.is_empty());
    let r = xs.handle(GuestMetric::Network(NetEvent { iface_id: 12, op: NetEventOp::RmMac(String::new()) }));
    assert!(matches!(r, Err(PublishError::UnknownInterface)));
}

#[test]
fn console_lines() {
    let mut c = ConsolePublisher::new();
    let l = c.process_message(GuestMetric::OperatingSystem(os_info(OsVersion::Numbered(12, 5, 0), Some("6.1.0"))));
    assert_eq!(l, vec!["OS: Debian - Version: 12.5.0", "Kernel version: 6.1.0"]);
    let l = c.process_message(GuestMetric::Memory(MemoryInfo { mem_free: 2048, mem_total: 10240 }));
    assert_eq!(l, vec!["Memory: 2/10 KB"]);
    let l = c.process_message(GuestMetric::AddIface(vif_iface(1, 3, 0)));
    assert_eq!(l, vec!["3 +IFACE (vif/0)"]);
    let l = c.process_message(GuestMetric::AddIface(NetInterface {
        uuid: 2,
        index: 4,
        name: "lo".to_string(),
        toolstack_iface: ToolstackNetInterface::Unknown,
    }));
    assert_eq!(l, vec!["4 +IFACE (unknown)"]);
    let l = c.process_message(GuestMetric::Network(NetEvent { iface_id: 1, op: NetEventOp::AddIp(IpAddr::V4(0x7F00_0001)) }));
    assert_eq!(l, vec!["3 +IP  127.0.0.1"]);
    let l = c.process_message(GuestMetric::Network(NetEvent { iface_id: 1, op: NetEventOp::RmMac("aa".to_string()) }));
    assert_eq!(l, vec!["3 -MAC aa"]);
    let l = c.process_message(GuestMetric::Network(NetEvent { iface_id: 9, op: NetEventOp::RmMac("aa".to_string()) }));
    assert!(l.is_empty());
    let l = c.process_message(GuestMetric::RmIface(1));
    assert_eq!(l, vec!["3 -IFACE"]);
    let l = c.process_message(GuestMetric::RmIface(1));
    assert!(l.is_empty());
}
