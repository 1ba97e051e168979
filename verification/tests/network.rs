use xen_guest_agent::cache_publish::{
    console_netevent_line, schema_from_name, Schema, SchemaName, UnknownSchema,
};
use xen_guest_agent::xs_request::XsRequest;
use xen_guest_agent::metrics::{GuestMetric, IpAddr, NetEventOp, ToolstackNetInterface};
use xen_guest_agent::netlink::{
    AddressAttribute, AddressMessage, LinkAttribute, LinkMessage, NetlinkPlugin, NetlinkStep,
    RouteNetlinkMessage,
};
use xen_guest_agent::netlink_cache::{CacheEventOp, NetlinkError, NetlinkNetworkSource};
use xen_guest_agent::simple_net::{IfAddr, InterfaceSnapshot, SimpleNetworkPlugin};
use xen_guest_agent::vif::{
    build_platform_vif_detector, FreebsdVifDetector, LinuxVifDetector, PlatformVifDetector,
    VifDetectionMethod, VifDetector, VifEntry, XenstoreVifDetector,
};

fn link(index: u32, attrs: Vec<LinkAttribute>) -> LinkMessage {
    LinkMessage { index, attributes: attrs }
}

fn addr_msg(index: u32, ip: Option<IpAddr>) -> AddressMessage {
    let mut attributes = vec![AddressAttribute::Other];
    if let Some(ip) = ip {
        attributes.push(AddressAttribute::Address(ip));
    }
    AddressMessage { index, attributes }
}

fn snapshot(name: &str, index: u32, addrs: &[u32], mac: Option<&str>) -> InterfaceSnapshot {
    InterfaceSnapshot {
        name: name.to_string(),
        addr: addrs
            .iter()
            .map(|a| IfAddr { ip: IpAddr::V4(*a), broadcast: None, netmask: None })
            .collect(),
        mac_addr: mac.map(|m| m.to_string()),
        index,
        internal: false,
    }
}

#[test]
fn freebsd_vif_names() {
    let d = FreebsdVifDetector;
    assert_eq!(d.get_toolstack_interface("xn0", None), Some(ToolstackNetInterface::Vif(0)));
    assert_eq!(d.get_toolstack_interface("xn12", None), Some(ToolstackNetInterface::Vif(12)));
    assert_eq!(d.get_toolstack_interface("xn", None), None);
    assert_eq!(d.get_toolstack_interface("xnA", None), None);
    assert_eq!(d.get_toolstack_interface("em0", None), None);
}

#[test]
fn linux_vif_from_sysfs() {
    let d = LinuxVifDetector;
    assert_eq!(
        d.identify(Some("vif\n"), Some("device/vif/3\n")),
        Some(ToolstackNetInterface::Vif(3))
    );
    assert_eq!(d.identify(Some("pci\n"), Some("device/vif/3\n")), None);
    assert_eq!(d.identify(Some("vif\n"), Some("device/vbd/3\n")), None);
    assert_eq!(d.identify(None, None), None);
    assert_eq!(d.identify(Some("vif"), None), None);
}

#[test]
fn xenstore_vif_by_mac() {
    let d = XenstoreVifDetector;
    let entries = vec![
        VifEntry { id: "0".to_string(), mac: Some("00:16:3e:00:00:01".to_string()) },
        VifEntry { id: "1".to_string(), mac: None },
        VifEntry { id: "2".to_string(), mac: Some(" 00:16:3E:00:00:02\n".to_string()) },
    ];
    assert_eq!(
        d.identify(Some("00:16:3e:00:00:02"), Some(&entries)),
        Some(ToolstackNetInterface::Vif(2))
    );
    assert_eq!(
        d.identify(Some("00:16:3e:00:00:09"), Some(&entries)),
        Some(ToolstackNetInterface::Unknown)
    );
    assert_eq!(d.identify(None, Some(&entries)), None);
    assert_eq!(d.identify(Some("00:16:3e:00:00:01"), None), None);
}

#[test]
fn vif_detector_choice() {
    assert_eq!(VifDetectionMethod::default(), VifDetectionMethod::Linux);
    assert_eq!(
        build_platform_vif_detector(VifDetectionMethod::Xenstore, true),
        PlatformVifDetector::Xenstore
    );
    assert_eq!(
        build_platform_vif_detector(VifDetectionMethod::Xenstore, false),
        PlatformVifDetector::Disabled
    );
    assert_eq!(
        build_platform_vif_detector(VifDetectionMethod::Freebsd, false),
        PlatformVifDetector::Freebsd
    );
}

#[test]
fn netlink_link_then_address() {
    let mut plugin = NetlinkPlugin::new();
    let msg = RouteNetlinkMessage::NewLink(link(
        2,
        vec![
            LinkAttribute::Other,
            LinkAttribute::Address(vec![0x00, 0x16, 0x3e, 0x0a, 0xbc, 0xff]),
            LinkAttribute::IfName("eth0".to_string()),
        ],
    ));
    let (index, name, mac) = match plugin.process_message(&msg) {
        NetlinkStep::Identify { index, name, mac } => (index, name, mac),
        _ => panic!("link must be identified"),
    };
    assert_eq!(index, 2);
    assert_eq!(name, "eth0");
    assert_eq!(mac.as_deref(), Some("00:16:3e:0a:bc:ff"));
    let uuid = match plugin.on_identified(index, name, Some(ToolstackNetInterface::Vif(0))) {
        Some(GuestMetric::AddIface(i)) => {
            assert_eq!(i.index, 2);
            assert_eq!(i.toolstack_iface, ToolstackNetInterface::Vif(0));
            i.uuid
        },
        _ => panic!("interface must be announced"),
    };
    assert_eq!((uuid >> 76) & 0xf, 4);
    let msg = RouteNetlinkMessage::NewAddress(addr_msg(2, Some(IpAddr::V4(0x0A00_0005))));
    match plugin.process_message(&msg) {
        NetlinkStep::Metric(GuestMetric::Network(ev)) => {
            assert_eq!(ev.iface_id, uuid);
            assert!(matches!(ev.op, NetEventOp::AddIp(IpAddr::V4(0x0A00_0005))));
        },
        _ => panic!("address must be reported"),
    }
    let msg = RouteNetlinkMessage::DelAddress(addr_msg(2, Some(IpAddr::V4(0x0A00_0005))));
    assert!(matches!(
        plugin.process_message(&msg),
        NetlinkStep::Metric(GuestMetric::Network(_))
    ));
    let msg = RouteNetlinkMessage::DelLink(link(2, vec![]));
    match plugin.process_message(&msg) {
        NetlinkStep::Metric(GuestMetric::RmIface(u)) => assert_eq!(u, uuid),
        _ => panic!("removal must be reported"),
    }
}

#[test]
fn netlink_ignored_messages() {
    let mut plugin = NetlinkPlugin::new();
    let msg = RouteNetlinkMessage::NewLink(link(3, vec![LinkAttribute::Other]));
    assert!(matches!(plugin.process_message(&msg), NetlinkStep::Nothing));
    let msg = RouteNetlinkMessage::NewAddress(addr_msg(3, Some(IpAddr::V4(1))));
    assert!(matches!(plugin.process_message(&msg), NetlinkStep::Nothing));
    assert!(plugin.on_identified(3, "eth1".to_string(), None).is_none());
    let msg = RouteNetlinkMessage::DelLink(link(3, vec![]));
    assert!(matches!(plugin.process_message(&msg), NetlinkStep::Nothing));
    assert!(matches!(plugin.process_message(&RouteNetlinkMessage::Other), NetlinkStep::Nothing));
    plugin.on_identified(3, "eth1".to_string(), Some(ToolstackNetInterface::Unknown));
    let msg = RouteNetlinkMessage::NewAddress(addr_msg(3, None));
    assert!(matches!(plugin.process_message(&msg), NetlinkStep::Nothing));
}

#[test]
fn netlink_cache_events() {
    let mut source = NetlinkNetworkSource::new();
    let msg = RouteNetlinkMessage::NewLink(link(
        5,
        vec![
            LinkAttribute::IfName("eth0".to_string()),
            LinkAttribute::Address(vec![1, 2, 3, 4, 5, 6]),
            LinkAttribute::IfName("eth1".to_string()),
        ],
    ));
    assert_eq!(source.pending_identification(&msg), Some((5, "eth1".to_string())));
    let events = source.netevent_from_rtnetlink(&msg, ToolstackNetInterface::Vif(1)).unwrap();
    assert_eq!(events.len(), 2);
    assert!(matches!(events[0].op, CacheEventOp::AddIface));
    match &events[1].op {
        CacheEventOp::AddMac(m) => assert_eq!(m, "01:02:03:04:05:06"),
        _ => panic!("MAC address expected"),
    }
    assert_eq!(source.pending_identification(&msg), None);
    let msg = RouteNetlinkMessage::NewAddress(addr_msg(5, None));
    assert!(matches!(
        source.netevent_from_rtnetlink(&msg, ToolstackNetInterface::Unknown),
        Err(NetlinkError::UnknownAddress)
    ));
    let msg = RouteNetlinkMessage::NewAddress(addr_msg(6, Some(IpAddr::V4(1))));
    assert!(matches!(
        source.netevent_from_rtnetlink(&msg, ToolstackNetInterface::Unknown),
        Err(NetlinkError::UnknownInterface(6))
    ));
    let msg = RouteNetlinkMessage::GetLink(link(5, vec![]));
    assert!(matches!(
        source.netevent_from_rtnetlink(&msg, ToolstackNetInterface::Unknown),
        Err(NetlinkError::Unhandled)
    ));
    let msg = RouteNetlinkMessage::DelLink(link(5, vec![]));
    let events = source.netevent_from_rtnetlink(&msg, ToolstackNetInterface::Unknown).unwrap();
    assert_eq!(events.len(), 1);
    assert!(matches!(events[0].op, CacheEventOp::RmIface));
}

#[test]
fn simple_snapshots() {
    let mut plugin = SimpleNetworkPlugin::new();
    let first = vec![snapshot("eth0", 2, &[0x0A00_0001], Some("00:16:3e:00:00:01")), snapshot("lo", 1, &[], None)];
    let new = plugin.new_interfaces(&first);
    assert_eq!(new, vec![0, 1]);
    let events = plugin.apply_snapshot(
        &first,
        &vec![ToolstackNetInterface::Vif(0), ToolstackNetInterface::Unknown],
        &vec![10, 11],
    );
    assert_eq!(events.len(), 4);
    match &events[0] {
        GuestMetric::AddIface(i) => {
            assert_eq!(i.uuid, 10);
            assert_eq!(i.name, "eth0");
        },
        _ => panic!("announcement expected"),
    }
    assert!(matches!(&events[1], GuestMetric::Network(e) if e.iface_id == 10 && matches!(e.op, NetEventOp::AddIp(_))));
    assert!(matches!(&events[2], GuestMetric::Network(e) if matches!(&e.op, NetEventOp::AddMac(m) if m == "00:16:3e:00:00:01")));
    assert!(matches!(&events[3], GuestMetric::AddIface(i) if i.uuid == 11));
    let same = vec![snapshot("eth0", 2, &[0x0A00_0001], Some("00:16:3e:00:00:01")), snapshot("lo", 1, &[], None)];
    assert!(plugin.new_interfaces(&same).is_empty());
    assert!(plugin.apply_snapshot(&same, &vec![], &vec![]).is_empty());
    let second = vec![snapshot("eth0", 2, &[0x0A00_0002], Some("00:16:3e:00:00:02"))];
    let events = plugin.apply_snapshot(&second, &vec![], &vec![]);
    assert_eq!(events.len(), 5);
    assert!(matches!(&events[0], GuestMetric::RmIface(11)));
    assert!(matches!(&events[1], GuestMetric::Network(e) if matches!(e.op, NetEventOp::AddIp(IpAddr::V4(0x0A00_0002)))));
    assert!(matches!(&events[2], GuestMetric::Network(e) if matches!(e.op, NetEventOp::RmIp(IpAddr::V4(0x0A00_0001)))));
    assert!(matches!(&events[3], GuestMetric::Network(e) if matches!(&e.op, NetEventOp::RmMac(m) if m == "00:16:3e:00:00:01")));
    assert!(matches!(&events[4], GuestMetric::Network(e) if matches!(&e.op, NetEventOp::AddMac(m) if m == "00:16:3e:00:00:02")));
    plugin.flush();
    assert_eq!(plugin.new_interfaces(&second), vec![0]);
}

#[test]
fn simple_track_interfaces_random_ids() {
    let mut plugin = SimpleNetworkPlugin::new();
    let snap = vec![snapshot("eth0", 2, &[], None), snapshot("eth1", 3, &[], None)];
    let events = plugin.track_interfaces(
        &snap,
        &vec![ToolstackNetInterface::Vif(0), ToolstackNetInterface::Vif(1)],
    );
    let ids: Vec<u128> = events
        .iter()
        .filter_map(|m| match m {
            GuestMetric::AddIface(i) => Some(i.uuid),
            _ => None,
        })
        .collect();
    assert_eq!(ids.len(), 2);
    assert_ne!(ids[0], ids[1]);
    for id in ids {
        assert_eq!((id >> 76) & 0xf, 4);
        assert_eq!((id >> 62) & 0x3, 2);
    }
}

#[test]
fn simple_mac_change_return_and_flush() {
    let mut plugin = SimpleNetworkPlugin::new();
    let ts = vec![ToolstackNetInterface::Vif(0)];
    let first = vec![snapshot("eth0", 2, &[0x0A00_0001], Some("m1"))];
    let events = plugin.apply_snapshot(&first, &ts, &vec![7]);
    assert_eq!(events.len(), 3);
    let changed = vec![snapshot("eth0", 2, &[0x0A00_0001], Some("m2"))];
    let events = plugin.apply_snapshot(&changed, &vec![], &vec![]);
    assert_eq!(events.len(), 2);
    assert!(matches!(&events[0], GuestMetric::Network(e) if e.iface_id == 7 && matches!(&e.op, NetEventOp::RmMac(m) if m == "m1")));
    assert!(matches!(&events[1], GuestMetric::Network(e) if e.iface_id == 7 && matches!(&e.op, NetEventOp::AddMac(m) if m == "m2")));
    let no_mac = vec![snapshot("eth0", 2, &[0x0A00_0001], None)];
    let events = plugin.apply_snapshot(&no_mac, &vec![], &vec![]);
    assert_eq!(events.len(), 1);
    assert!(matches!(&events[0], GuestMetric::Network(e) if e.iface_id == 7 && matches!(&e.op, NetEventOp::RmMac(m) if m == "m2")));
    assert!(plugin.apply_snapshot(&no_mac, &vec![], &vec![]).is_empty());

    let events = plugin.apply_snapshot(&vec![], &vec![], &vec![]);
    assert_eq!(events.len(), 1);
    assert!(matches!(&events[0], GuestMetric::RmIface(7)));
    let events = plugin.track_interfaces(&first, &ts);
    assert_eq!(events.len(), 3);
    let u = match &events[0] {
        GuestMetric::AddIface(i) => i.uuid,
        _ => panic!("announcement expected"),
    };
    assert_ne!(u, 7);
    assert_eq!((u >> 76) & 0xf, 4);
    assert!(matches!(&events[1], GuestMetric::Network(e) if e.iface_id == u && matches!(e.op, NetEventOp::AddIp(IpAddr::V4(0x0A00_0001)))));
    assert!(matches!(&events[2], GuestMetric::Network(e) if e.iface_id == u && matches!(&e.op, NetEventOp::AddMac(m) if m == "m1")));

    plugin.flush();
    let events = plugin.apply_snapshot(&first, &ts, &vec![9]);
    assert_eq!(events.len(), 3);
    assert!(matches!(&events[0], GuestMetric::AddIface(i) if i.uuid == 9));
    assert!(events.iter().all(|m| !matches!(m, GuestMetric::RmIface(_))));
}

#[test]
fn vif_refusals() {
    let l = LinuxVifDetector;
    assert!(l.refuses(Some("vif\n"), Some("device/vif/x\n")));
    assert!(!l.refuses(Some("vif\n"), Some("device/vif/1\n")));
    assert!(!l.refuses(Some("pci"), Some("device/vif/x")));
    let x = XenstoreVifDetector;
    let entries = vec![VifEntry { id: "zero".to_string(), mac: Some("aa".to_string()) }];
    assert!(x.refuses(Some("AA"), Some(&entries)));
    assert!(!x.refuses(Some("bb"), Some(&entries)));
}

#[test]
fn index_schema_publishes_cache_events() {
    assert_eq!(schema_from_name("std"), Ok(SchemaName::Std));
    assert_eq!(schema_from_name("rfc"), Ok(SchemaName::Rfc));
    assert_eq!(schema_from_name("console"), Err(UnknownSchema));
    let mut source = NetlinkNetworkSource::new();
    let msg = RouteNetlinkMessage::NewLink(link(4, vec![LinkAttribute::IfName("eth0".to_string())]));
    let events = source.netevent_from_rtnetlink(&msg, ToolstackNetInterface::Unknown).unwrap();
    let iface = source.cached(4).unwrap();
    assert!(source.cached(5).is_none());
    let schema = Schema { protocol_version: "0.1.0".to_string() };
    let r = schema.publish_netevent(&iface, &events[0]);
    assert!(matches!(&r[..], [XsRequest::Write { key, value }] if key == "data/net/4" && value == "eth0"));
    assert_eq!(console_netevent_line(&iface, &events[0]), "eth0 +IFACE");
    let msg = RouteNetlinkMessage::NewAddress(addr_msg(4, Some(IpAddr::V4(0x0A00_0001))));
    let events = source.netevent_from_rtnetlink(&msg, ToolstackNetInterface::Unknown).unwrap();
    let r = schema.publish_netevent(&iface, &events[0]);
    assert!(matches!(&r[..], [XsRequest::Write { key, value }] if key == "data/net/4/ipv4/10_0_0_1" && value.is_empty()));
    assert_eq!(console_netevent_line(&iface, &events[0]), "eth0 +IP  10.0.0.1");
    let r = schema.cleanup_ifaces();
    assert!(matches!(&r[..], [XsRequest::Remove { key }] if key == "data/net"));
}
