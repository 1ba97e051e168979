//! The metrics that the agent collects and publishes.
use vstd::prelude::*;
use crate::text::{dec, push_decimal};
use crate::ip::{ipv6_text, ipv6_string};

verus! {

/// Kernel identification, as `uname` reports it.
#[derive(Debug)]
pub struct KernelInfo {
    pub release: String,
}

/// What the toolstack knows a guest network interface as.
#[derive(Clone, Copy, Debug, PartialEq, Eq, Structural)]
pub enum ToolstackNetInterface {
    Unknown,
    Vif(u32),
}

impl Default for ToolstackNetInterface {
    fn default() -> (r: Self)
        ensures
            r == ToolstackNetInterface::Unknown,
    {
        ToolstackNetInterface::Unknown
    }
}

/// An IP address: IPv4 as the big-endian value of its four octets, IPv6 as the
/// big-endian value of its sixteen octets.
#[derive(Clone, Copy, Debug, PartialEq, Eq, Structural)]
pub enum IpAddr {
    V4(u32),
    V6(u128),
}

/// A network interface of the guest, identified for the publishers by `uuid`.
#[derive(Debug)]
pub struct NetInterface {
    pub uuid: u128,
    pub index: u32,
    pub name: String,
    pub toolstack_iface: ToolstackNetInterface,
}

impl NetInterface {
    /// A copy of the interface.
    pub fn duplicate(&self) -> (r: NetInterface)
        ensures
            r == *self,
    {
        NetInterface {
            uuid: self.uuid,
            index: self.index,
            name: self.name.clone(),
            toolstack_iface: self.toolstack_iface,
        }
    }
}

/// A change of one network interface.
#[derive(Debug)]
pub enum NetEventOp {
    AddMac(String),
    RmMac(String),
    AddIp(IpAddr),
    RmIp(IpAddr),
}

#[derive(Debug)]
pub struct NetEvent {
    pub iface_id: u128,
    pub op: NetEventOp,
}

/// Version of an operating system.
#[derive(Debug)]
pub enum OsVersion {
    Numbered(u64, u64, u64),
    Custom(String),
}

/// The text of a version: `a.b.c` for a numbered one, the text itself otherwise.
pub open spec fn version_text(v: VersionView) -> Seq<char> {
    match v {
        VersionView::Numbered(a, b, c) => dec(a as nat) + seq!['.'] + dec(b as nat) + seq!['.']
            + dec(c as nat),
        VersionView::Custom(s) => s,
    }
}

impl OsVersion {
    /// The version as text (its `Display` form).
    pub fn to_text(&self) -> (s: String)
        ensures
            s@ == version_text(self@),
    {
        match self {
            OsVersion::Numbered(a, b, c) => {
                let mut s = String::new();
                push_decimal(&mut s, *a);
                s.push('.');
                push_decimal(&mut s, *b);
                s.push('.');
                push_decimal(&mut s, *c);
                assert(s@ =~= version_text(self@));
                s
            },
            OsVersion::Custom(v) => v.clone(),
        }
    }
}

#[derive(Debug)]
pub struct OsBaseInfo {
    pub os_type: String,
    pub os_name: String,
    pub os_version: OsVersion,
}

#[derive(Debug)]
pub struct OsInfo {
    pub os_base_info: OsBaseInfo,
    pub kernel_info: Option<KernelInfo>,
}

/// Memory figures, in kilobytes.
#[derive(Debug)]
pub struct MemoryInfo {
    pub mem_free: usize,
    pub mem_total: usize,
}

/// A message from a collector to the publisher.
#[derive(Debug)]
pub enum GuestMetric {
    OperatingSystem(OsInfo),
    AddIface(NetInterface),
    RmIface(u128),
    Memory(MemoryInfo),
    Network(NetEvent),
    CleanupIfaces,
    /// clipboard data coming from the guest
    GetClipboard(Vec<u8>),
}

/// A copy of an optional string.
pub fn clone_opt_string(s: &Option<String>) -> (r: Option<String>)
    ensures
        r == *s,
{
    match s {
        Some(v) => Some(v.clone()),
        None => None,
    }
}


/// The dotted-decimal text of an IPv4 address.
pub open spec fn ipv4_text(a: u32) -> Seq<char> {
    dec(((a / 0x100_0000) % 256) as nat) + seq!['.'] + dec(((a / 0x1_0000) % 256) as nat) + seq![
        '.',
    ] + dec(((a / 0x100) % 256) as nat) + seq!['.'] + dec((a % 256) as nat)
}

/// The text of an address, as `IpAddr`'s `Display` writes it.
pub open spec fn ip_text(addr: IpAddr) -> Seq<char> {
    match addr {
        IpAddr::V4(a) => ipv4_text(a),
        IpAddr::V6(a) => ipv6_text(a),
    }
}

impl IpAddr {
    /// The address as text.
    pub fn to_text(&self) -> (s: String)
        ensures
            s@ == ip_text(*self),
    {
        match self {
            IpAddr::V4(a) => {
                let a = *a;
                let mut s = String::new();
                push_decimal(&mut s, ((a / 0x100_0000) % 256) as u64);
                s.push('.');
                push_decimal(&mut s, ((a / 0x1_0000) % 256) as u64);
                s.push('.');
                push_decimal(&mut s, ((a / 0x100) % 256) as u64);
                s.push('.');
                push_decimal(&mut s, (a % 256) as u64);
                assert(s@ =~= ipv4_text(a));
                s
            },
            IpAddr::V6(a) => ipv6_string(*a),
        }
    }
}


/// Abstract value of a `NetEventOp`.
pub enum OpView {
    AddMac(Seq<char>),
    RmMac(Seq<char>),
    AddIp(IpAddr),
    RmIp(IpAddr),
}

/// Abstract value of an `OsVersion`.
pub enum VersionView {
    Numbered(u64, u64, u64),
    Custom(Seq<char>),
}

/// Abstract value of an `OsInfo`.
pub struct OsInfoView {
    pub os_type: Seq<char>,
    pub os_name: Seq<char>,
    pub os_version: VersionView,
    pub kernel_release: Option<Seq<char>>,
}

/// Abstract value of a `NetInterface`.
pub struct IfaceView {
    pub uuid: u128,
    pub index: u32,
    pub name: Seq<char>,
    pub toolstack_iface: ToolstackNetInterface,
}

/// Abstract value of a `GuestMetric`.
pub enum MetricView {
    OperatingSystem(OsInfoView),
    AddIface(IfaceView),
    RmIface(u128),
    Memory { mem_free: usize, mem_total: usize },
    Network { iface_id: u128, op: OpView },
    CleanupIfaces,
    GetClipboard(Seq<u8>),
}

impl View for NetEventOp {
    type V = OpView;

    open spec fn view(&self) -> OpView {
        match self {
            NetEventOp::AddMac(m) => OpView::AddMac(m@),
            NetEventOp::RmMac(m) => OpView::RmMac(m@),
            NetEventOp::AddIp(a) => OpView::AddIp(*a),
            NetEventOp::RmIp(a) => OpView::RmIp(*a),
        }
    }
}

impl View for OsVersion {
    type V = VersionView;

    open spec fn view(&self) -> VersionView {
        match self {
            OsVersion::Numbered(a, b, c) => VersionView::Numbered(*a, *b, *c),
            OsVersion::Custom(s) => VersionView::Custom(s@),
        }
    }
}

impl View for OsInfo {
    type V = OsInfoView;

    open spec fn view(&self) -> OsInfoView {
        OsInfoView {
            os_type: self.os_base_info.os_type@,
            os_name: self.os_base_info.os_name@,
            os_version: self.os_base_info.os_version@,
            kernel_release: match self.kernel_info {
                Some(k) => Some(k.release@),
                None => None,
            },
        }
    }
}

impl View for NetInterface {
    type V = IfaceView;

    open spec fn view(&self) -> IfaceView {
        IfaceView {
            uuid: self.uuid,
            index: self.index,
            name: self.name@,
            toolstack_iface: self.toolstack_iface,
        }
    }
}

impl View for GuestMetric {
    type V = MetricView;

    open spec fn view(&self) -> MetricView {
        match self {
            GuestMetric::OperatingSystem(i) => MetricView::OperatingSystem(i@),
            GuestMetric::AddIface(i) => MetricView::AddIface(i@),
            GuestMetric::RmIface(u) => MetricView::RmIface(*u),
            GuestMetric::Memory(m) => MetricView::Memory {
                mem_free: m.mem_free,
                mem_total: m.mem_total,
            },
            GuestMetric::Network(e) => MetricView::Network { iface_id: e.iface_id, op: e.op@ },
            GuestMetric::CleanupIfaces => MetricView::CleanupIfaces,
            GuestMetric::GetClipboard(d) => MetricView::GetClipboard(d@),
        }
    }
}

/// The abstract values of a sequence of metrics.
pub open spec fn metrics_view(s: Seq<GuestMetric>) -> Seq<MetricView> {
    s.map_values(|m: GuestMetric| m@)
}

pub open spec fn opt_string_view(s: Option<String>) -> Option<Seq<char>> {
    match s {
        Some(v) => Some(v@),
        None => None,
    }
}

} // verus!
