//! The xenstore schema proposed for guest agents: `data/xen-guest-agent`, `data/os` and
//! `data/net`.
use vstd::prelude::*;
use std::collections::HashMap;
use crate::metrics::{
    ip_text, version_text, GuestMetric, IfaceView, IpAddr, MetricView, NetEvent, NetEventOp,
    NetInterface, OpView, OsInfo, OsInfoView, ToolstackNetInterface,
};
use crate::text::{dec, push_decimal};
use crate::xs_request::{
    push_remove, push_write, requests_view, PublishError, RequestView, XsRequest,
};
use crate::xs_std::{lookup_iface, plan_result};

verus! {

/// What the agent tells about itself.
pub struct AgentInfo {
    /// Full version of the agent's package.
    pub version: String,
    pub vendor: Option<String>,
    pub major: String,
    pub minor: String,
    pub patch: String,
    /// Pre-release part of the version; empty for a release.
    pub pre: String,
}

/// Abstract value of an `AgentInfo`.
pub struct AgentInfoView {
    pub version: Seq<char>,
    pub vendor: Option<Seq<char>>,
    pub major: Seq<char>,
    pub minor: Seq<char>,
    pub patch: Seq<char>,
    pub pre: Seq<char>,
}

impl View for AgentInfo {
    type V = AgentInfoView;

    open spec fn view(&self) -> AgentInfoView {
        AgentInfoView {
            version: self.version@,
            vendor: match self.vendor {
                Some(v) => Some(v@),
                None => None,
            },
            major: self.major@,
            minor: self.minor@,
            patch: self.patch@,
            pre: self.pre@,
        }
    }
}

/// The release channel: `stable` for a release, the pre-release part otherwise.
pub open spec fn channel(a: AgentInfoView) -> Seq<char> {
    if a.pre.len() == 0 {
        "stable"@
    } else {
        a.pre
    }
}

/// The directory of a VIF.
pub open spec fn net_key(id: u32) -> Seq<char> {
    "data/net/"@ + dec(id as nat)
}

/// `s` with every `from` replaced by `to`.
pub open spec fn replace_char(s: Seq<char>, from: char, to: char) -> Seq<char> {
    s.map_values(|c: char| if c == from { to } else { c })
}

/// The key suffix of an address: its family, then its text with the separators
/// replaced by `_`.
pub open spec fn rfc_munged(a: IpAddr) -> Seq<char> {
    match a {
        IpAddr::V4(_) => "ipv4/"@ + replace_char(ip_text(a), '.', '_'),
        IpAddr::V6(_) => "ipv6/"@ + replace_char(ip_text(a), ':', '_'),
    }
}

/// What the agent writes about itself.
pub open spec fn agent_info_requests(a: AgentInfoView) -> Seq<RequestView> {
    seq![RequestView::Write("data/xen-guest-agent"@, a.version)] + match a.vendor {
        Some(v) => seq![RequestView::Write("data/xen-guest-agent/vendor"@, v)],
        None => Seq::empty(),
    } + seq![
        RequestView::Write("data/xen-guest-agent/major"@, a.major),
        RequestView::Write("data/xen-guest-agent/minor"@, a.minor),
        RequestView::Write("data/xen-guest-agent/patch"@, a.patch),
        RequestView::Write("data/xen-guest-agent/channel"@, channel(a)),
    ]
}

/// What publishing the operating system information writes: the agent's own
/// information, then that of the system.
pub open spec fn rfc_osinfo_requests(a: AgentInfoView, info: OsInfoView) -> Seq<RequestView> {
    agent_info_requests(a) + seq![
        RequestView::Write("data/os/name"@, info.os_type + " "@ + version_text(info.os_version)),
        RequestView::Write("data/os/version"@, version_text(info.os_version)),
        RequestView::Write("data/os/class"@, "unix"@),
    ] + match info.kernel_release {
        Some(r) => seq![RequestView::Write("data/os/unix/kernel-version"@, r)],
        None => Seq::empty(),
    }
}

/// What publishing a network event asks for, given the interface it names (if
/// announced).
pub open spec fn rfc_netevent_requests(iface: Option<IfaceView>, op: OpView) -> Result<
    Seq<RequestView>,
    PublishError,
> {
    match iface {
        None => Err(PublishError::UnknownInterface),
        Some(i) => match i.toolstack_iface {
            ToolstackNetInterface::Unknown => Ok(Seq::empty()),
            ToolstackNetInterface::Vif(id) => Ok(
                match op {
                    OpView::AddIp(a) => seq![
                        RequestView::Write(net_key(id) + seq!['/'] + rfc_munged(a), Seq::empty()),
                    ],
                    OpView::RmIp(a) => seq![RequestView::Remove(net_key(id) + seq!['/'] + rfc_munged(a))],
                    OpView::AddMac(m) => seq![RequestView::Write(net_key(id), m)],
                    OpView::RmMac(_) => seq![RequestView::Remove(net_key(id))],
                },
            ),
        },
    }
}

/// What publishing a metric asks for, given the interfaces announced so far.
pub open spec fn rfc_requests(a: AgentInfoView, ifaces: Map<u128, IfaceView>, m: MetricView) -> Result<
    Seq<RequestView>,
    PublishError,
> {
    match m {
        MetricView::OperatingSystem(info) => Ok(rfc_osinfo_requests(a, info)),
        MetricView::Memory { .. } => Ok(Seq::empty()),
        MetricView::Network { iface_id, op } => rfc_netevent_requests(
            lookup_iface(ifaces, iface_id),
            op,
        ),
        MetricView::CleanupIfaces => Ok(seq![RequestView::Remove("data/net"@)]),
        MetricView::AddIface(i) => Ok(
            match i.toolstack_iface {
                ToolstackNetInterface::Vif(id) => seq![RequestView::Write(net_key(id), Seq::empty())],
                ToolstackNetInterface::Unknown => Seq::empty(),
            },
        ),
        MetricView::RmIface(uuid) => Ok(
            match lookup_iface(ifaces, uuid) {
                Some(i) => match i.toolstack_iface {
                    ToolstackNetInterface::Vif(id) => seq![RequestView::Remove(net_key(id))],
                    ToolstackNetInterface::Unknown => Seq::empty(),
                },
                None => Seq::empty(),
            },
        ),
        MetricView::GetClipboard(_) => Ok(Seq::empty()),
    }
}

/// The interfaces known after a metric.
pub open spec fn rfc_next_ifaces(ifaces: Map<u128, IfaceView>, m: MetricView) -> Map<u128, IfaceView> {
    match m {
        MetricView::AddIface(i) => ifaces.insert(i.uuid, i),
        MetricView::RmIface(uuid) => ifaces.remove(uuid),
        _ => ifaces,
    }
}

/// `s` with every `from` replaced by `to`.
pub fn replace_chars(s: &str, from: char, to: char) -> (r: String)
    ensures
        r@ == replace_char(s@, from, to),
{
    let mut r = String::new();
    for c in it: s.chars()
        invariant
            it.seq() == s@,
            r@ == replace_char(it.seq().take(it.index() as int), from, to),
    {
        let d = if c == from {
            to
        } else {
            c
        };
        let ghost k = it.index();
        r.push(d);
        assert(replace_char(it.seq().take(k + 1), from, to) =~= replace_char(it.seq().take(k), from, to).push(d));
    }
    assert(s@.take(s@.len() as int) =~= s@);
    r
}

/// The key suffix of an address (`munged_address`).
pub fn munged_address(addr: IpAddr) -> (r: String)
    ensures
        r@ == rfc_munged(addr),
{
    let text = addr.to_text();
    match addr {
        IpAddr::V4(_) => {
            let mut r = "ipv4/".to_owned();
            let t = replace_chars(text.as_str(), '.', '_');
            r.append(t.as_str());
            r
        },
        IpAddr::V6(_) => {
            let mut r = "ipv6/".to_owned();
            let t = replace_chars(text.as_str(), ':', '_');
            r.append(t.as_str());
            r
        },
    }
}

fn iface_prefix(id: u32) -> (s: String)
    ensures
        s@ == net_key(id),
{
    let mut s = "data/net/".to_owned();
    push_decimal(&mut s, id as u64);
    s
}

/// Publisher of the proposed schema: the interfaces announced so far.
pub struct XenstoreRfc {
    ifaces: HashMap<u128, NetInterface>,
    info: AgentInfo,
}

impl XenstoreRfc {
    /// The interfaces announced so far, by identifier.
    pub closed spec fn iface_map(&self) -> Map<u128, IfaceView> {
        self.ifaces@.map_values(|i: NetInterface| i@)
    }

    pub closed spec fn info_view(&self) -> AgentInfoView {
        self.info@
    }

    /// A publisher that knows no interface yet.
    pub fn new(info: AgentInfo) -> (r: XenstoreRfc)
        ensures
            r.iface_map() == Map::<u128, IfaceView>::empty(),
            r.info_view() == info@,
    {
        let r = XenstoreRfc { ifaces: HashMap::new(), info };
        assert(r.iface_map() =~= Map::<u128, IfaceView>::empty());
        r
    }

    fn publish_agent_info(&self, out: &mut Vec<XsRequest>)
        ensures
            requests_view(final(out)@) == requests_view(old(out)@) + agent_info_requests(
                self.info_view(),
            ),
    {
        let ghost start = requests_view(out@);
        push_write(out, "data/xen-guest-agent".to_owned(), self.info.version.clone());
        match &self.info.vendor {
            Some(v) => {
                push_write(out, "data/xen-guest-agent/vendor".to_owned(), v.clone());
            },
            None => {},
        }
        push_write(out, "data/xen-guest-agent/major".to_owned(), self.info.major.clone());
        push_write(out, "data/xen-guest-agent/minor".to_owned(), self.info.minor.clone());
        push_write(out, "data/xen-guest-agent/patch".to_owned(), self.info.patch.clone());
        let ch = if self.info.pre.as_str().is_empty() {
            "stable".to_owned()
        } else {
            self.info.pre.clone()
        };
        push_write(out, "data/xen-guest-agent/channel".to_owned(), ch);
        assert(requests_view(out@) =~= start + agent_info_requests(self.info_view()));
    }

    /// What publishing the operating system information writes.
    pub fn publish_osinfo(&self, info: &OsInfo) -> (r: Vec<XsRequest>)
        ensures
            requests_view(r@) == rfc_osinfo_requests(self.info_view(), info@),
    {
        let mut out: Vec<XsRequest> = Vec::new();
        assert(requests_view(out@) =~= Seq::<RequestView>::empty());
        self.publish_agent_info(&mut out);
        let vtext = info.os_base_info.os_version.to_text();
        let mut name = info.os_base_info.os_type.clone();
        name.append(" ");
        name.append(vtext.as_str());
        push_write(&mut out, "data/os/name".to_owned(), name);
        push_write(&mut out, "data/os/version".to_owned(), vtext);
        push_write(&mut out, "data/os/class".to_owned(), "unix".to_owned());
        match &info.kernel_info {
            Some(k) => {
                push_write(&mut out, "data/os/unix/kernel-version".to_owned(), k.release.clone());
            },
            None => {},
        }
        assert(requests_view(out@) =~= rfc_osinfo_requests(self.info_view(), info@));
        out
    }

    /// What publishing a network event asks for.  An event of an interface that was never
    /// announced is refused; one of an interface the toolstack does not know asks for
    /// nothing.
    pub fn publish_netevent(&self, event: &NetEvent) -> (r: Result<Vec<XsRequest>, PublishError>)
        ensures
            plan_result(r) == rfc_netevent_requests(
                lookup_iface(self.iface_map(), event.iface_id),
                event.op@,
            ),
    {
        broadcast use vstd::std_specs::hash::group_hash_axioms;
        let mut out: Vec<XsRequest> = Vec::new();
        assert(requests_view(out@) =~= Seq::<RequestView>::empty());
        let vif = match self.ifaces.get(&event.iface_id) {
            None => {
                return Err(PublishError::UnknownInterface);
            },
            Some(iface) => match iface.toolstack_iface {
                ToolstackNetInterface::Unknown => {
                    return Ok(out);
                },
                ToolstackNetInterface::Vif(id) => id,
            },
        };
        let prefix = iface_prefix(vif);
        match &event.op {
            NetEventOp::AddIp(address) => {
                let mut key = prefix;
                key.push('/');
                let m = munged_address(*address);
                key.append(m.as_str());
                assert(key@ =~= net_key(vif) + seq!['/'] + rfc_munged(*address));
                push_write(&mut out, key, String::new());
            },
            NetEventOp::RmIp(address) => {
                let mut key = prefix;
                key.push('/');
                let m = munged_address(*address);
                key.append(m.as_str());
                assert(key@ =~= net_key(vif) + seq!['/'] + rfc_munged(*address));
                push_remove(&mut out, key);
            },
            NetEventOp::AddMac(mac) => {
                push_write(&mut out, prefix, mac.clone());
            },
            NetEventOp::RmMac(_) => {
                push_remove(&mut out, prefix);
            },
        }
        Ok(out)
    }

    /// What publishing one metric asks for, and the interfaces known afterwards.
    pub fn handle(&mut self, metric: GuestMetric) -> (r: Result<Vec<XsRequest>, PublishError>)
        ensures
            plan_result(r) == rfc_requests(old(self).info_view(), old(self).iface_map(), metric@),
            final(self).iface_map() == rfc_next_ifaces(old(self).iface_map(), metric@),
            final(self).info_view() == old(self).info_view(),
    {
        broadcast use vstd::std_specs::hash::group_hash_axioms;
        let mut out: Vec<XsRequest> = Vec::new();
        assert(requests_view(out@) =~= Seq::<RequestView>::empty());
        match metric {
            GuestMetric::OperatingSystem(info) => {
                return Ok(self.publish_osinfo(&info));
            },
            GuestMetric::Memory(_) => {},
            GuestMetric::Network(ev) => {
                return self.publish_netevent(&ev);
            },
            GuestMetric::CleanupIfaces => {
                push_remove(&mut out, "data/net".to_owned());
            },
            GuestMetric::AddIface(iface) => {
                if let ToolstackNetInterface::Vif(id) = iface.toolstack_iface {
                    push_write(&mut out, iface_prefix(id), String::new());
                }
                let ghost v = iface@;
                let uuid = iface.uuid;
                self.ifaces.insert(uuid, iface);
                assert(self.iface_map() =~= old(self).iface_map().insert(uuid, v));
            },
            GuestMetric::RmIface(uuid) => {
                let removed = self.ifaces.remove(&uuid);
                if let Some(interface) = removed {
                    if let ToolstackNetInterface::Vif(id) = interface.toolstack_iface {
                        push_remove(&mut out, iface_prefix(id));
                    }
                }
                assert(self.iface_map() =~= old(self).iface_map().remove(uuid));
            },
            GuestMetric::GetClipboard(_) => {},
        }
        Ok(out)
    }
}


/// The directory of the addresses of one family of a VIF: `data/net/<vif>/ipv4/` or
/// `data/net/<vif>/ipv6/`.
pub open spec fn family_dir(id: u32, v6: bool) -> Seq<char> {
    net_key(id) + seq!['/', 'i', 'p', 'v', if v6 { '6' } else { '4' }, '/']
}

/// The key of a VIF that one address lives under, in the schema: what adding the address
/// writes.
pub open spec fn rfc_address_key(i: IfaceView, a: IpAddr) -> Seq<char> {
    rfc_netevent_requests(Some(i), OpView::AddIp(a))->Ok_0[0]->Write_0
}

/// For an interface of a VIF, adding an address writes one key, with an empty value: the
/// directory of the address's family under the VIF's directory, then the address's text
/// with its separators replaced by `_`; removing the
/// address removes that very key and nothing else, so the VIF's directory, its MAC address
/// and its other keys stay; the MAC address is written at, and removed from, the VIF's
/// directory itself.
pub proof fn lemma_rfc_address_keys(i: IfaceView, a: IpAddr, m: Seq<char>)
    requires
        i.toolstack_iface is Vif,
    ensures
        ({
            let id = i.toolstack_iface->Vif_0;
            let k = rfc_address_key(i, a);
            &&& rfc_netevent_requests(Some(i), OpView::AddIp(a)) == Ok::<
                Seq<RequestView>,
                PublishError,
            >(seq![RequestView::Write(k, Seq::empty())])
            &&& rfc_netevent_requests(Some(i), OpView::RmIp(a)) == Ok::<
                Seq<RequestView>,
                PublishError,
            >(seq![RequestView::Remove(k)])
            &&& k.len() >= family_dir(id, a is V6).len()
            &&& k.take(family_dir(id, a is V6).len() as int) == family_dir(id, a is V6)
            &&& k == family_dir(id, a is V6) + replace_char(
                ip_text(a),
                if a is V6 { ':' } else { '.' },
                '_',
            )
            &&& k != net_key(id)
            &&& rfc_netevent_requests(Some(i), OpView::AddMac(m)) == Ok::<
                Seq<RequestView>,
                PublishError,
            >(seq![RequestView::Write(net_key(id), m)])
            &&& rfc_netevent_requests(Some(i), OpView::RmMac(m)) == Ok::<
                Seq<RequestView>,
                PublishError,
            >(seq![RequestView::Remove(net_key(id))])
        }),
{
    let id = i.toolstack_iface->Vif_0;
    lemma_family_key(id, a);
    let d = family_dir(id, a is V6);
    let k = rfc_address_key(i, a);
    assert(d.len() == net_key(id).len() + 6);
    assert(k.take(d.len() as int) =~= d);
    assert(k.len() != net_key(id).len());
}

/// An address's key is the family directory followed by the address's text, with its
/// separators replaced.
pub proof fn lemma_family_key(id: u32, a: IpAddr)
    ensures
        net_key(id) + seq!['/'] + rfc_munged(a) == family_dir(id, a is V6) + replace_char(
            ip_text(a),
            if a is V6 { ':' } else { '.' },
            '_',
        ),
{
    reveal_strlit("ipv4/");
    reveal_strlit("ipv6/");
    match a {
        IpAddr::V4(x) => {
            assert(net_key(id) + seq!['/'] + rfc_munged(a) =~= family_dir(id, false) + replace_char(
                ip_text(a),
                '.',
                '_',
            ));
        },
        IpAddr::V6(x) => {
            assert(net_key(id) + seq!['/'] + rfc_munged(a) =~= family_dir(id, true) + replace_char(
                ip_text(a),
                ':',
                '_',
            ));
        },
    }
}

} // verus!
