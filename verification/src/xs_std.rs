//! The "std" xenstore schema: what the XenServer-style guest tools publish.
use vstd::prelude::*;
use std::collections::HashMap;
use crate::metrics::{
    ip_text, metrics_view, version_text, GuestMetric, IfaceView, IpAddr, MemoryInfo,
    MetricView, NetEvent, NetEventOp, NetInterface, OpView, OsInfo, OsInfoView, OsVersion,
    ToolstackNetInterface, VersionView,
};
use crate::report_text::{report_pieces, report_pieces_of};
use crate::text::{dec, push_decimal};
use crate::xs_request::{
    push_remove, push_request, push_write, requests_view, PublishError, RequestView, XsFailure,
    XsPlan, XsRequest,
};

verus! {

/// How many addresses of each family an interface can publish.
pub const NUM_IFACE_IPS: usize = 10;

/// Position of the first occurrence of `x` in `s`.
pub open spec fn first_index(s: Seq<Option<IpAddr>>, x: Option<IpAddr>) -> Option<int>
    decreases s.len(),
{
    if s.len() == 0 {
        None
    } else {
        match first_index(s.drop_last(), x) {
            Some(i) => Some(i),
            None => if s.last() == x {
                Some(s.len() - 1)
            } else {
                None
            },
        }
    }
}

/// The slot of an address in a list of slots: the slot that already holds it, otherwise
/// the first free slot, otherwise none.
pub open spec fn ip_slot(list: Seq<Option<IpAddr>>, ip: IpAddr) -> Result<int, PublishError> {
    match first_index(list, Some(ip)) {
        Some(k) => Ok(k),
        None => match first_index(list, None) {
            Some(k) => Ok(k),
            None => Err(PublishError::NoFreeSlot),
        },
    }
}

/// The list of slots once an address got its slot: a free slot taken by a new address
/// now holds it.
pub open spec fn ip_slot_list(list: Seq<Option<IpAddr>>, ip: IpAddr) -> Seq<Option<IpAddr>> {
    match first_index(list, Some(ip)) {
        Some(_) => list,
        None => match first_index(list, None) {
            Some(k) => list.update(k, Some(ip)),
            None => list,
        },
    }
}

/// A slot number as a mathematical integer.
pub open spec fn slot_int(r: Result<usize, PublishError>) -> Result<int, PublishError> {
    match r {
        Ok(k) => Ok(k as int),
        Err(e) => Err(e),
    }
}

/// No address occupies two slots.
pub open spec fn slots_distinct(list: Seq<Option<IpAddr>>) -> bool {
    forall|i: int, j: int|
        0 <= i < list.len() && 0 <= j < list.len() && i != j && list[i] is Some ==> list[i]
            != list[j]
}

/// The first occurrence of `x` in `s`, if any, and no earlier one.
pub proof fn lemma_first_index(s: Seq<Option<IpAddr>>, x: Option<IpAddr>)
    ensures
        match first_index(s, x) {
            Some(i) => 0 <= i < s.len() && s[i] == x && forall|j: int| 0 <= j < i ==> s[j] != x,
            None => forall|j: int| 0 <= j < s.len() ==> s[j] != x,
        },
    decreases s.len(),
{
    if s.len() > 0 {
        lemma_first_index(s.drop_last(), x);
        match first_index(s.drop_last(), x) {
            Some(i) => {
                assert(s[i] == s.drop_last()[i]);
                assert forall|j: int| 0 <= j < i implies s[j] != x by {
                    assert(s[j] == s.drop_last()[j]);
                }
            },
            None => {
                assert forall|j: int| 0 <= j < s.len() - 1 implies s[j] != x by {
                    assert(s[j] == s.drop_last()[j]);
                }
            },
        }
    }
}

/// `first_index` characterised by position: the first position holding `x`.
proof fn lemma_first_index_at(s: Seq<Option<IpAddr>>, x: Option<IpAddr>, i: int)
    requires
        0 <= i < s.len(),
        s[i] == x,
        forall|j: int| 0 <= j < i ==> s[j] != x,
    ensures
        first_index(s, x) == Some(i),
{
    lemma_first_index(s, x);
    match first_index(s, x) {
        Some(k) => {
            assert(k == i);
        },
        None => {},
    }
}

/// The slot of an address in a list of slots (`get_ip_slot`): the slot that already holds
/// it, otherwise the first free slot, which then holds it.
pub fn get_ip_slot(ip: IpAddr, list: &mut Vec<Option<IpAddr>>) -> (r: Result<usize, PublishError>)
    ensures
        slot_int(r) == ip_slot(old(list)@, ip),
        final(list)@ == ip_slot_list(old(list)@, ip),
{
    let mut empty_idx: Option<usize> = None;
    let mut idx: usize = 0;
    while idx < list.len()
        invariant
            idx <= list.len(),
            list@ == old(list)@,
            first_index(list@.take(idx as int), Some(ip)) is None,
            match empty_idx {
                Some(e) => first_index(list@.take(idx as int), None) == Some(e as int),
                None => first_index(list@.take(idx as int), None) is None,
            },
        decreases list.len() - idx,
    {
        assert(list@.take(idx + 1).drop_last() =~= list@.take(idx as int));
        assert(list@.take(idx + 1).last() == list@[idx as int]);
        match list[idx] {
            Some(item) => {
                if item == ip {
                    proof {
                        lemma_first_index(list@.take(idx as int), Some(ip));
                        assert forall|j: int| 0 <= j < idx implies list@[j] != Some(ip) by {
                            assert(list@.take(idx as int)[j] == list@[j]);
                        }
                        lemma_first_index_at(list@, Some(ip), idx as int);
                    }
                    return Ok(idx);
                }
            },
            None => {
                if empty_idx.is_none() {
                    empty_idx = Some(idx);
                }
            },
        }
        idx = idx + 1;
    }
    assert(list@.take(list.len() as int) =~= list@);
    proof {
        lemma_first_index(list@, None);
    }
    if let Some(i) = empty_idx {
        list.set(i, Some(ip));
        return Ok(i);
    }
    Err(PublishError::NoFreeSlot)
}

/// Asking again for the slot of an address gives the same slot and changes nothing.
pub proof fn lemma_ip_slot_stable(list: Seq<Option<IpAddr>>, ip: IpAddr)
    requires
        ip_slot(list, ip) is Ok,
    ensures
        0 <= ip_slot(list, ip)->Ok_0 < list.len(),
        ip_slot_list(list, ip)[ip_slot(list, ip)->Ok_0] == Some(ip),
        ip_slot(ip_slot_list(list, ip), ip) == ip_slot(list, ip),
        ip_slot_list(ip_slot_list(list, ip), ip) == ip_slot_list(list, ip),
{
    lemma_first_index(list, Some(ip));
    lemma_first_index(list, None);
    match first_index(list, Some(ip)) {
        Some(k) => {},
        None => {
            let k = first_index(list, None)->Some_0;
            let l2 = list.update(k, Some(ip));
            assert forall|j: int| 0 <= j < k implies l2[j] != Some(ip) by {
                assert(l2[j] == list[j]);
            }
            lemma_first_index_at(l2, Some(ip), k);
        },
    }
}

/// Different addresses that both got a slot, one after the other, got different slots,
/// and slots never hold an address twice.
pub proof fn lemma_ip_slots_distinct(list: Seq<Option<IpAddr>>, a: IpAddr, b: IpAddr)
    requires
        slots_distinct(list),
        a != b,
        ip_slot(list, a) is Ok,
        ip_slot(ip_slot_list(list, a), b) is Ok,
    ensures
        slots_distinct(ip_slot_list(list, a)),
        ip_slot(ip_slot_list(list, a), b)->Ok_0 != ip_slot(list, a)->Ok_0,
{
    let l1 = ip_slot_list(list, a);
    lemma_first_index(list, Some(a));
    lemma_first_index(list, None);
    lemma_ip_slot_stable(list, a);
    let ka = ip_slot(list, a)->Ok_0;
    assert(l1[ka] == Some(a));
    assert forall|i: int, j: int| 0 <= i < l1.len() && 0 <= j < l1.len() && i != j && l1[i] is Some implies l1[i] != l1[j] by {
        if first_index(list, Some(a)) is None {
            if i == ka {
                assert(list[j] != Some(a));
            } else if j == ka {
                assert(list[i] != Some(a));
            }
        }
    }
    lemma_first_index(l1, Some(b));
    lemma_first_index(l1, None);
}


/// Version of the agent, as published under `attr/PVAddons`.
pub struct AgentVersion {
    pub major: String,
    pub minor: String,
    pub micro: String,
    /// Build name; empty when there is none.
    pub build: String,
    /// Version of the agent's package.
    pub package: String,
}

/// Abstract value of an `AgentVersion`.
pub struct AgentVersionView {
    pub major: Seq<char>,
    pub minor: Seq<char>,
    pub micro: Seq<char>,
    pub build: Seq<char>,
    pub package: Seq<char>,
}

impl View for AgentVersion {
    type V = AgentVersionView;

    open spec fn view(&self) -> AgentVersionView {
        AgentVersionView {
            major: self.major@,
            minor: self.minor@,
            micro: self.micro@,
            build: self.build@,
            package: self.package@,
        }
    }
}

/// The xenstore directory of a VIF.
pub open spec fn vif_key(id: u32) -> Seq<char> {
    "attr/vif/"@ + dec(id as nat)
}

/// The key of an address slot of a VIF.
pub open spec fn ip_key(id: u32, v6: bool, slot: int) -> Seq<char> {
    vif_key(id) + seq!['/'] + munged_text(v6, slot)
}

pub open spec fn is_v6(a: IpAddr) -> bool {
    a is V6
}

/// The build name published: `proto-<package version>` when there is no build name.
pub open spec fn build_name(v: AgentVersionView) -> Seq<char> {
    if v.build.len() == 0 {
        "proto-"@ + v.package
    } else {
        v.build
    }
}

/// What publishing the operating system information writes.
pub open spec fn osinfo_requests(
    v: AgentVersionView,
    info: OsInfoView,
    balloon_forbidden: bool,
) -> Seq<RequestView> {
    seq![
        RequestView::Write("attr/PVAddons/Installed"@, "1"@),
        RequestView::Write("attr/PVAddons/MajorVersion"@, v.major),
        RequestView::Write("attr/PVAddons/MinorVersion"@, v.minor),
        RequestView::Write("attr/PVAddons/MicroVersion"@, v.micro),
        RequestView::Write("attr/PVAddons/BuildVersion"@, build_name(v)),
        RequestView::Write("data/os_distro"@, info.os_type),
        RequestView::Write("data/os_name"@, info.os_type + " "@ + version_text(info.os_version)),
    ] + match info.os_version {
        VersionView::Numbered(a, b, c) => seq![
            RequestView::Write("data/os_majorver"@, dec(a as nat)),
            RequestView::Write("data/os_minorver"@, dec(b as nat)),
            RequestView::Write("data/os_buildver"@, dec(c as nat)),
        ],
        VersionView::Custom(_) => Seq::empty(),
    } + match info.kernel_release {
        Some(r) => seq![RequestView::Write("data/os_uname"@, r)],
        None => Seq::empty(),
    } + if balloon_forbidden {
        Seq::empty()
    } else {
        seq![RequestView::WriteBalloon]
    }
}

/// What publishing memory figures writes: free and total memory in megabytes.
pub open spec fn memory_requests(mem_free: usize, mem_total: usize) -> Seq<RequestView> {
    seq![
        RequestView::Write("data/meminfo_free"@, dec((mem_free / 1024) as nat)),
        RequestView::Write("data/meminfo_total"@, dec((mem_total / 1024) as nat)),
    ]
}

/// The key that clipboard text is reported at.
pub open spec fn clipboard_key() -> Seq<char> {
    "data/report_clipboard"@
}

/// Reporting pieces of clipboard text: each piece is written, then a change of the key
/// is awaited; an empty piece ends the report.
pub open spec fn clipboard_requests(pieces: Seq<Seq<char>>) -> Seq<RequestView>
    decreases pieces.len(),
{
    if pieces.len() == 0 {
        seq![
            RequestView::Write(clipboard_key(), Seq::empty()),
            RequestView::WatchOnce(clipboard_key()),
        ]
    } else {
        seq![
            RequestView::Write(clipboard_key(), pieces[0]),
            RequestView::WatchOnce(clipboard_key()),
        ] + clipboard_requests(pieces.drop_first())
    }
}

struct IfaceIpStruct {
    v4: Vec<Option<IpAddr>>,
    v6: Vec<Option<IpAddr>>,
}

/// Ten empty slots.
pub open spec fn empty_slots() -> Seq<Option<IpAddr>> {
    Seq::new(10, |i: int| None::<IpAddr>)
}

fn new_slots() -> (r: Vec<Option<IpAddr>>)
    ensures
        r@ == empty_slots(),
{
    let mut r: Vec<Option<IpAddr>> = Vec::new();
    while r.len() < NUM_IFACE_IPS
        invariant
            r.len() <= 10,
            forall|i: int| 0 <= i < r.len() ==> r@[i] is None,
        decreases 10 - r.len(),
    {
        r.push(None);
    }
    assert(r@ =~= empty_slots());
    r
}

/// Publisher of the "std" schema: the per-VIF address slots, the known interfaces and
/// whether `control/feature-balloon` is known to be read-only.
pub struct XenstoreStd {
    ip_addresses: HashMap<u32, IfaceIpStruct>,
    forbidden_control_feature_balloon: bool,
    ifaces: HashMap<u128, NetInterface>,
    version: AgentVersion,
}

impl XenstoreStd {
    /// The address slots of a VIF, for one address family.
    pub closed spec fn slot_list(&self, vif: u32, v6: bool) -> Seq<Option<IpAddr>> {
        if self.ip_addresses@.dom().contains(vif) {
            if v6 {
                self.ip_addresses@[vif].v6@
            } else {
                self.ip_addresses@[vif].v4@
            }
        } else {
            empty_slots()
        }
    }

    /// The interfaces announced so far, by identifier.
    pub closed spec fn iface_map(&self) -> Map<u128, IfaceView> {
        self.ifaces@.map_values(|i: NetInterface| i@)
    }

    pub closed spec fn balloon_forbidden(&self) -> bool {
        self.forbidden_control_feature_balloon
    }

    pub closed spec fn version_view(&self) -> AgentVersionView {
        self.version@
    }

    /// A publisher that knows no interface and no address yet.
    pub fn new(version: AgentVersion) -> (r: XenstoreStd)
        ensures
            r.iface_map() == Map::<u128, IfaceView>::empty(),
            forall|vif: u32, v6: bool| #[trigger] r.slot_list(vif, v6) == empty_slots(),
            !r.balloon_forbidden(),
            r.version_view() == version@,
            slots_wf(r),
    {
        let r = XenstoreStd {
            ip_addresses: HashMap::new(),
            forbidden_control_feature_balloon: false,
            ifaces: HashMap::new(),
            version,
        };
        assert(r.iface_map() =~= Map::<u128, IfaceView>::empty());
        proof {
            lemma_new_slots_wf(r);
        }
        r
    }

    /// What publishing the operating system information writes.
    pub fn publish_osinfo(&self, info: &OsInfo) -> (r: Vec<XsRequest>)
        ensures
            requests_view(r@) == osinfo_requests(
                self.version_view(),
                info@,
                self.balloon_forbidden(),
            ),
    {
        let mut out: Vec<XsRequest> = Vec::new();
        push_write(&mut out, "attr/PVAddons/Installed".to_owned(), "1".to_owned());
        push_write(&mut out, "attr/PVAddons/MajorVersion".to_owned(), self.version.major.clone());
        push_write(&mut out, "attr/PVAddons/MinorVersion".to_owned(), self.version.minor.clone());
        push_write(&mut out, "attr/PVAddons/MicroVersion".to_owned(), self.version.micro.clone());
        let build = if self.version.build.as_str().is_empty() {
            let mut b = "proto-".to_owned();
            b.append(self.version.package.as_str());
            b
        } else {
            self.version.build.clone()
        };
        push_write(&mut out, "attr/PVAddons/BuildVersion".to_owned(), build);
        push_write(&mut out, "data/os_distro".to_owned(), info.os_base_info.os_type.clone());
        let mut name = info.os_base_info.os_type.clone();
        name.append(" ");
        let vtext = info.os_base_info.os_version.to_text();
        name.append(vtext.as_str());
        push_write(&mut out, "data/os_name".to_owned(), name);
        let ghost head = requests_view(out@);
        match &info.os_base_info.os_version {
            OsVersion::Numbered(a, b, c) => {
                let mut sa = String::new();
                push_decimal(&mut sa, *a);
                let mut sb = String::new();
                push_decimal(&mut sb, *b);
                let mut sc = String::new();
                push_decimal(&mut sc, *c);
                push_write(&mut out, "data/os_majorver".to_owned(), sa);
                push_write(&mut out, "data/os_minorver".to_owned(), sb);
                push_write(&mut out, "data/os_buildver".to_owned(), sc);
            },
            OsVersion::Custom(_) => {},
        }
        let ghost head2 = requests_view(out@);
        match &info.kernel_info {
            Some(k) => {
                push_write(&mut out, "data/os_uname".to_owned(), k.release.clone());
            },
            None => {},
        }
        let ghost head3 = requests_view(out@);
        if !self.forbidden_control_feature_balloon {
            push_request(&mut out, XsRequest::WriteBalloon);
        }
        assert(requests_view(out@) =~= osinfo_requests(
            self.version_view(),
            info@,
            self.balloon_forbidden(),
        ));
        out
    }

    /// What publishing memory figures writes.
    pub fn publish_memory(&self, mem_info: &MemoryInfo) -> (r: Vec<XsRequest>)
        ensures
            requests_view(r@) == memory_requests(mem_info.mem_free, mem_info.mem_total),
    {
        let mut out: Vec<XsRequest> = Vec::new();
        let mut f = String::new();
        push_decimal(&mut f, (mem_info.mem_free / 1024) as u64);
        let mut t = String::new();
        push_decimal(&mut t, (mem_info.mem_total / 1024) as u64);
        push_write(&mut out, "data/meminfo_free".to_owned(), f);
        push_write(&mut out, "data/meminfo_total".to_owned(), t);
        assert(requests_view(out@) =~= memory_requests(mem_info.mem_free, mem_info.mem_total));
        out
    }

    /// Removal of every VIF directory.
    pub fn cleanup_ifaces(&self) -> (r: Vec<XsRequest>)
        ensures
            requests_view(r@) == seq![RequestView::Remove("attr/vif"@)],
    {
        let mut out: Vec<XsRequest> = Vec::new();
        push_remove(&mut out, "attr/vif".to_owned());
        assert(requests_view(out@) =~= seq![RequestView::Remove("attr/vif"@)]);
        out
    }

    /// The outcome of the write that `XsRequest::WriteBalloon` asked for: a refused write
    /// is remembered (and not asked for again) and is no error; another failure is one.
    pub fn on_balloon_result(&mut self, result: Result<(), XsFailure>) -> (r: Result<(), XsFailure>)
        ensures
            r == match result {
                Err(XsFailure::Other) => Err(XsFailure::Other),
                _ => Ok(()),
            },
            final(self).balloon_forbidden() == (old(self).balloon_forbidden() || result == Err::<(), XsFailure>(XsFailure::PermissionDenied)),
            final(self).iface_map() == old(self).iface_map(),
            final(self).version_view() == old(self).version_view(),
            forall|vif: u32, v6: bool| #[trigger] final(self).slot_list(vif, v6) == old(self).slot_list(vif, v6),
            slots_wf(*old(self)) ==> slots_wf(*final(self)),
    {
        let r = match result {
            Ok(()) => Ok(()),
            Err(XsFailure::PermissionDenied) => {
                self.forbidden_control_feature_balloon = true;
                Ok(())
            },
            Err(XsFailure::Other) => Err(XsFailure::Other),
        };
        proof {
            if slots_wf(*old(self)) {
                lemma_same_slots_keeps_wf(*old(self), *self);
            }
        }
        r
    }

    /// The key suffix of an address of a VIF (`ipv4/<slot>` or `ipv6/<slot>`); a new
    /// address takes the first free slot of its family.
    fn munged_address(&mut self, addr: IpAddr, iface_index: u32) -> (r: Result<String, PublishError>)
        ensures
            match ip_slot(old(self).slot_list(iface_index, is_v6(addr)), addr) {
                Ok(k) => r is Ok && r->Ok_0@ == munged_text(is_v6(addr), k),
                Err(e) => r == Err::<String, PublishError>(e),
            },
            forall|vif: u32, v6: bool| #[trigger] final(self).slot_list(vif, v6) == if vif == iface_index && v6 == is_v6(addr) {
                ip_slot_list(old(self).slot_list(vif, v6), addr)
            } else {
                old(self).slot_list(vif, v6)
            },
            final(self).iface_map() == old(self).iface_map(),
            final(self).balloon_forbidden() == old(self).balloon_forbidden(),
            final(self).version_view() == old(self).version_view(),
    {
        broadcast use vstd::std_specs::hash::group_hash_axioms;
        let ghost old_slots = self.ip_addresses@;
        let mut entry = match self.ip_addresses.remove(&iface_index) {
            Some(e) => e,
            None => IfaceIpStruct { v4: new_slots(), v6: new_slots() },
        };
        let v6 = match addr {
            IpAddr::V4(_) => false,
            IpAddr::V6(_) => true,
        };
        let slot = if v6 {
            get_ip_slot(addr, &mut entry.v6)
        } else {
            get_ip_slot(addr, &mut entry.v4)
        };
        self.ip_addresses.insert(iface_index, entry);
        assert forall|vif: u32, w6: bool| #[trigger] self.slot_list(vif, w6) == if vif == iface_index && w6 == is_v6(addr) {
            ip_slot_list(old(self).slot_list(vif, w6), addr)
        } else {
            old(self).slot_list(vif, w6)
        } by {
            if vif != iface_index {
                assert(self.ip_addresses@.dom().contains(vif) == old_slots.dom().contains(vif));
            }
        }
        match slot {
            Ok(k) => {
                let mut s = if v6 {
                    "ipv6/".to_owned()
                } else {
                    "ipv4/".to_owned()
                };
                push_decimal(&mut s, k as u64);
                Ok(s)
            },
            Err(e) => Err(e),
        }
    }

    /// What publishing a network event asks for.  An event of an interface that was never
    /// announced is refused; one of an interface the toolstack does not know, or one that
    /// adds or removes a MAC address, asks for nothing.  An address is published under the
    /// slot it holds, a new one taking the first free slot of its family.
    pub fn publish_netevent(&mut self, event: &NetEvent) -> (r: Result<Vec<XsRequest>, PublishError>)
        ensures
            plan_result(r) == netevent_requests(
                lookup_iface(old(self).iface_map(), event.iface_id),
                event_slots(*old(self), event.iface_id, event.op@),
                event.op@,
            ),
            netevent_next(*old(self), *final(self), event.iface_id, event.op@),
            slots_wf(*old(self)) ==> slots_wf(*final(self)),
    {
        broadcast use vstd::std_specs::hash::group_hash_axioms;
        let ghost start = *self;
        let r = self.publish_netevent_inner(event);
        proof {
            if slots_wf(start) {
                lemma_netevent_keeps_slots_wf(start, *self, event.iface_id, event.op@);
            }
        }
        r
    }

    fn publish_netevent_inner(&mut self, event: &NetEvent) -> (r: Result<Vec<XsRequest>, PublishError>)
        ensures
            plan_result(r) == netevent_requests(
                lookup_iface(old(self).iface_map(), event.iface_id),
                event_slots(*old(self), event.iface_id, event.op@),
                event.op@,
            ),
            netevent_next(*old(self), *final(self), event.iface_id, event.op@),
    {
        broadcast use vstd::std_specs::hash::group_hash_axioms;
        let vif = match self.ifaces.get(&event.iface_id) {
            None => {
                return Err(PublishError::UnknownInterface);
            },
            Some(iface) => match iface.toolstack_iface {
                ToolstackNetInterface::Unknown => {
                    let none: Vec<XsRequest> = Vec::new();
                    assert(requests_view(none@) =~= Seq::<RequestView>::empty());
                    return Ok(none);
                },
                ToolstackNetInterface::Vif(id) => id,
            },
        };
        let mut out: Vec<XsRequest> = Vec::new();
        assert(requests_view(out@) =~= Seq::<RequestView>::empty());
        match &event.op {
            NetEventOp::AddIp(address) => {
                let address = *address;
                match self.munged_address(address, vif) {
                    Ok(suffix) => {
                        let mut key = iface_prefix(vif);
                        key.push('/');
                        key.append(suffix.as_str());
                        assert(key@ =~= ip_key(vif, is_v6(address), ip_slot(old(self).slot_list(vif, is_v6(address)), address)->Ok_0));
                        push_write(&mut out, key, address.to_text());
                    },
                    Err(e) => {
                        return Err(e);
                    },
                }
            },
            NetEventOp::RmIp(address) => {
                let address = *address;
                match self.munged_address(address, vif) {
                    Ok(suffix) => {
                        let mut key = iface_prefix(vif);
                        key.push('/');
                        key.append(suffix.as_str());
                        assert(key@ =~= ip_key(vif, is_v6(address), ip_slot(old(self).slot_list(vif, is_v6(address)), address)->Ok_0));
                        push_remove(&mut out, key);
                    },
                    Err(e) => {
                        return Err(e);
                    },
                }
            },
            NetEventOp::AddMac(_) => {},
            NetEventOp::RmMac(_) => {},
        }
        Ok(out)
    }

    /// Announcement of an interface: a VIF gets its (empty) directory, and the interface
    /// is known from now on.
    pub fn add_iface(&mut self, iface: NetInterface) -> (r: Vec<XsRequest>)
        ensures
            requests_view(r@) == match iface.toolstack_iface {
                ToolstackNetInterface::Vif(id) => seq![RequestView::Write(vif_key(id), Seq::empty())],
                ToolstackNetInterface::Unknown => Seq::empty(),
            },
            final(self).iface_map() == old(self).iface_map().insert(iface.uuid, iface@),
            same_slots(*old(self), *final(self)),
            final(self).balloon_forbidden() == old(self).balloon_forbidden(),
            final(self).version_view() == old(self).version_view(),
            slots_wf(*old(self)) ==> slots_wf(*final(self)),
    {
        broadcast use vstd::std_specs::hash::group_hash_axioms;
        let mut out: Vec<XsRequest> = Vec::new();
        if let ToolstackNetInterface::Vif(id) = iface.toolstack_iface {
            push_write(&mut out, iface_prefix(id), String::new());
        }
        let ghost v = iface@;
        let uuid = iface.uuid;
        self.ifaces.insert(uuid, iface);
        assert(self.iface_map() =~= old(self).iface_map().insert(uuid, v));
        assert(requests_view(out@) =~= match v.toolstack_iface {
            ToolstackNetInterface::Vif(id) => seq![RequestView::Write(vif_key(id), Seq::empty())],
            ToolstackNetInterface::Unknown => Seq::empty(),
        });
        proof {
            if slots_wf(*old(self)) {
                lemma_same_slots_keeps_wf(*old(self), *self);
            }
        }
        out
    }

    /// Removal of an interface: a VIF's directory is removed; an interface that is not
    /// known asks for nothing.
    pub fn rm_iface(&mut self, uuid: u128) -> (r: Vec<XsRequest>)
        ensures
            requests_view(r@) == match lookup_iface(old(self).iface_map(), uuid) {
                Some(i) => match i.toolstack_iface {
                    ToolstackNetInterface::Vif(id) => seq![RequestView::Remove(vif_key(id))],
                    ToolstackNetInterface::Unknown => Seq::empty(),
                },
                None => Seq::empty(),
            },
            final(self).iface_map() == old(self).iface_map().remove(uuid),
            same_slots(*old(self), *final(self)),
            final(self).balloon_forbidden() == old(self).balloon_forbidden(),
            final(self).version_view() == old(self).version_view(),
            slots_wf(*old(self)) ==> slots_wf(*final(self)),
    {
        broadcast use vstd::std_specs::hash::group_hash_axioms;
        let mut out: Vec<XsRequest> = Vec::new();
        let removed = self.ifaces.remove(&uuid);
        if let Some(interface) = removed {
            if let ToolstackNetInterface::Vif(id) = interface.toolstack_iface {
                push_remove(&mut out, iface_prefix(id));
            }
        }
        assert(self.iface_map() =~= old(self).iface_map().remove(uuid));
        assert(requests_view(out@) =~= match lookup_iface(old(self).iface_map(), uuid) {
            Some(i) => match i.toolstack_iface {
                ToolstackNetInterface::Vif(id) => seq![RequestView::Remove(vif_key(id))],
                ToolstackNetInterface::Unknown => Seq::empty(),
            },
            None => Seq::empty(),
        });
        proof {
            if slots_wf(*old(self)) {
                lemma_same_slots_keeps_wf(*old(self), *self);
            }
        }
        out
    }

    /// Reporting clipboard contents: the pieces of the text, each written and then awaited,
    /// and an empty piece at the end.
    pub fn publish_clipboard(&self, data: &Vec<u8>) -> (r: Vec<XsRequest>)
        ensures
            requests_view(r@) == clipboard_requests(report_pieces(data@)),
    {
        let pieces = report_pieces_of(data.as_slice());
        let mut out: Vec<XsRequest> = Vec::new();
        let mut i: usize = 0;
        assert(requests_view(out@) =~= Seq::<RequestView>::empty());
        assert(report_pieces(data@).skip(0) =~= report_pieces(data@));
        while i < pieces.len()
            invariant
                i <= pieces.len(),
                pieces@.map_values(|p: String| p@) == report_pieces(data@),
                requests_view(out@) + clipboard_requests(report_pieces(data@).skip(i as int))
                    == clipboard_requests(report_pieces(data@)),
            decreases pieces.len() - i,
        {
            let ghost rest = report_pieces(data@).skip(i as int);
            assert(rest.len() > 0);
            assert(rest[0] == pieces@[i as int]@);
            assert(rest.drop_first() =~= report_pieces(data@).skip(i + 1));
            let ghost before = requests_view(out@);
            push_write(&mut out, clipboard_key_string(), pieces[i].clone());
            push_request(&mut out, XsRequest::WatchOnce { key: clipboard_key_string() });
            assert(requests_view(out@) + clipboard_requests(report_pieces(data@).skip(i + 1))
                =~= before + clipboard_requests(rest));
            i = i + 1;
        }
        assert(report_pieces(data@).skip(i as int).len() == 0);
        push_write(&mut out, clipboard_key_string(), String::new());
        push_request(&mut out, XsRequest::WatchOnce { key: clipboard_key_string() });
        assert(requests_view(out@) =~= clipboard_requests(report_pieces(data@)));
        out
    }

    /// What publishing one metric asks for.  Reporting the clipboard is best effort: its
    /// failure ends that report and is no error.
    pub fn handle(&mut self, metric: GuestMetric) -> (r: Result<XsPlan, PublishError>)
        ensures
            match metric@ {
                MetricView::OperatingSystem(info) => plan_is(r, osinfo_requests(
                    old(self).version_view(),
                    info,
                    old(self).balloon_forbidden(),
                ), false) && same_state(*old(self), *final(self)),
                MetricView::Memory { mem_free, mem_total } => plan_is(
                    r,
                    memory_requests(mem_free, mem_total),
                    false,
                ) && same_state(*old(self), *final(self)),
                MetricView::Network { iface_id, op } => (match netevent_requests(
                    lookup_iface(old(self).iface_map(), iface_id),
                    event_slots(*old(self), iface_id, op),
                    op,
                ) {
                    Ok(q) => plan_is(r, q, false),
                    Err(e) => r == Err::<XsPlan, PublishError>(e),
                }) && netevent_next(*old(self), *final(self), iface_id, op),
                MetricView::CleanupIfaces => plan_is(r, seq![RequestView::Remove("attr/vif"@)], false)
                    && same_state(*old(self), *final(self)),
                MetricView::AddIface(i) => plan_is(r, match i.toolstack_iface {
                    ToolstackNetInterface::Vif(id) => seq![RequestView::Write(vif_key(id), Seq::empty())],
                    ToolstackNetInterface::Unknown => Seq::empty(),
                }, false) && final(self).iface_map() == old(self).iface_map().insert(i.uuid, i)
                    && same_slots(*old(self), *final(self))
                    && final(self).balloon_forbidden() == old(self).balloon_forbidden()
                    && final(self).version_view() == old(self).version_view(),
                MetricView::RmIface(uuid) => plan_is(r, match lookup_iface(old(self).iface_map(), uuid) {
                    Some(i) => match i.toolstack_iface {
                        ToolstackNetInterface::Vif(id) => seq![RequestView::Remove(vif_key(id))],
                        ToolstackNetInterface::Unknown => Seq::empty(),
                    },
                    None => Seq::empty(),
                }, false) && final(self).iface_map() == old(self).iface_map().remove(uuid)
                    && same_slots(*old(self), *final(self))
                    && final(self).balloon_forbidden() == old(self).balloon_forbidden()
                    && final(self).version_view() == old(self).version_view(),
                MetricView::GetClipboard(data) => plan_is(r, clipboard_requests(report_pieces(data)), true)
                    && same_state(*old(self), *final(self)),
            },
            slots_wf(*old(self)) ==> slots_wf(*final(self)),
    {
        match metric {
            GuestMetric::OperatingSystem(info) => {
                let requests = self.publish_osinfo(&info);
                Ok(XsPlan { requests, best_effort: false })
            },
            GuestMetric::Memory(m) => {
                let requests = self.publish_memory(&m);
                Ok(XsPlan { requests, best_effort: false })
            },
            GuestMetric::Network(ev) => match self.publish_netevent(&ev) {
                Ok(requests) => Ok(XsPlan { requests, best_effort: false }),
                Err(e) => Err(e),
            },
            GuestMetric::CleanupIfaces => {
                let requests = self.cleanup_ifaces();
                Ok(XsPlan { requests, best_effort: false })
            },
            GuestMetric::AddIface(i) => {
                let requests = self.add_iface(i);
                Ok(XsPlan { requests, best_effort: false })
            },
            GuestMetric::RmIface(uuid) => {
                let requests = self.rm_iface(uuid);
                Ok(XsPlan { requests, best_effort: false })
            },
            GuestMetric::GetClipboard(data) => {
                let requests = self.publish_clipboard(&data);
                Ok(XsPlan { requests, best_effort: true })
            },
        }
    }
}

/// The text of a VIF's directory.
fn iface_prefix(id: u32) -> (s: String)
    ensures
        s@ == vif_key(id),
{
    let mut s = "attr/vif/".to_owned();
    push_decimal(&mut s, id as u64);
    s
}

fn clipboard_key_string() -> (s: String)
    ensures
        s@ == clipboard_key(),
{
    "data/report_clipboard".to_owned()
}

/// `ipv4/<slot>` or `ipv6/<slot>`.
pub open spec fn munged_text(v6: bool, slot: int) -> Seq<char> {
    (if v6 {
        "ipv6/"@
    } else {
        "ipv4/"@
    }) + dec(slot as nat)
}

/// The interface known under `id`, if any.
pub open spec fn lookup_iface(m: Map<u128, IfaceView>, id: u128) -> Option<IfaceView> {
    if m.contains_key(id) {
        Some(m[id])
    } else {
        None
    }
}

/// The address that an event adds or removes, if any.
pub open spec fn op_addr(op: OpView) -> Option<IpAddr> {
    match op {
        OpView::AddIp(a) => Some(a),
        OpView::RmIp(a) => Some(a),
        _ => None,
    }
}

/// The VIF, address family and address whose slot an event of interface `id` takes, if
/// any.
pub open spec fn event_target(s: XenstoreStd, id: u128, op: OpView) -> Option<(u32, bool, IpAddr)> {
    match lookup_iface(s.iface_map(), id) {
        Some(i) => match (i.toolstack_iface, op_addr(op)) {
            (ToolstackNetInterface::Vif(vif), Some(a)) => Some((vif, is_v6(a), a)),
            _ => None,
        },
        None => None,
    }
}

/// The slots that an event is decided on: those of its VIF for the family of its address.
pub open spec fn event_slots(s: XenstoreStd, id: u128, op: OpView) -> Seq<Option<IpAddr>> {
    match event_target(s, id, op) {
        Some((vif, v6, _)) => s.slot_list(vif, v6),
        None => empty_slots(),
    }
}

/// What publishing a network event asks for, given the interface it names (if announced)
/// and the slots of that interface for the family of the event's address.
pub open spec fn netevent_requests(
    iface: Option<IfaceView>,
    slots: Seq<Option<IpAddr>>,
    op: OpView,
) -> Result<Seq<RequestView>, PublishError> {
    match iface {
        None => Err(PublishError::UnknownInterface),
        Some(i) => match i.toolstack_iface {
            ToolstackNetInterface::Unknown => Ok(Seq::empty()),
            ToolstackNetInterface::Vif(id) => match op {
                OpView::AddIp(a) => match ip_slot(slots, a) {
                    Ok(k) => Ok(seq![RequestView::Write(ip_key(id, is_v6(a), k), ip_text(a))]),
                    Err(e) => Err(e),
                },
                OpView::RmIp(a) => match ip_slot(slots, a) {
                    Ok(k) => Ok(seq![RequestView::Remove(ip_key(id, is_v6(a), k))]),
                    Err(e) => Err(e),
                },
                _ => Ok(Seq::empty()),
            },
        },
    }
}

/// The state after a network event: the slots of the event's VIF and family are those
/// once its address got its slot; nothing else changes.
pub open spec fn netevent_next(s: XenstoreStd, t: XenstoreStd, id: u128, op: OpView) -> bool {
    &&& t.iface_map() == s.iface_map()
    &&& t.balloon_forbidden() == s.balloon_forbidden()
    &&& t.version_view() == s.version_view()
    &&& forall|vif: u32, v6: bool| #[trigger] t.slot_list(vif, v6) == match event_target(s, id, op) {
        Some((w, f, a)) => if w == vif && f == v6 {
            ip_slot_list(s.slot_list(vif, v6), a)
        } else {
            s.slot_list(vif, v6)
        },
        None => s.slot_list(vif, v6),
    }
}

/// Two publishers hold the same address slots.
pub open spec fn same_slots(s: XenstoreStd, t: XenstoreStd) -> bool {
    forall|vif: u32, v6: bool| #[trigger] t.slot_list(vif, v6) == s.slot_list(vif, v6)
}

/// Two publishers are in the same state.
pub open spec fn same_state(s: XenstoreStd, t: XenstoreStd) -> bool {
    &&& t.iface_map() == s.iface_map()
    &&& t.balloon_forbidden() == s.balloon_forbidden()
    &&& t.version_view() == s.version_view()
    &&& same_slots(s, t)
}

/// The requests of a result, or its error.
pub open spec fn plan_result(r: Result<Vec<XsRequest>, PublishError>) -> Result<Seq<RequestView>, PublishError> {
    match r {
        Ok(v) => Ok(requests_view(v@)),
        Err(e) => Err(e),
    }
}

/// A plan with these requests and this mode.
pub open spec fn plan_is(r: Result<XsPlan, PublishError>, q: Seq<RequestView>, best_effort: bool) -> bool {
    &&& r is Ok
    &&& requests_view(r->Ok_0.requests@) == q
    &&& r->Ok_0.best_effort == best_effort
}

/// Removing an address right after adding it removes the very key that the addition
/// wrote.
pub proof fn lemma_add_then_remove_same_key(iface: IfaceView, slots: Seq<Option<IpAddr>>, a: IpAddr)
    requires
        netevent_requests(Some(iface), slots, OpView::AddIp(a)) is Ok,
        iface.toolstack_iface is Vif,
    ensures
        ({
            let id = iface.toolstack_iface->Vif_0;
            let k = ip_slot(slots, a)->Ok_0;
            &&& netevent_requests(Some(iface), slots, OpView::AddIp(a)) == Ok::<Seq<RequestView>, PublishError>(seq![RequestView::Write(ip_key(id, is_v6(a), k), ip_text(a))])
            &&& netevent_requests(Some(iface), ip_slot_list(slots, a), OpView::RmIp(a)) == Ok::<Seq<RequestView>, PublishError>(seq![RequestView::Remove(ip_key(id, is_v6(a), k))])
        }),
{
    lemma_ip_slot_stable(slots, a);
}

/// Once an interface is removed, its events are refused as coming from an unknown
/// interface, whatever they are.
pub proof fn lemma_removed_interface_refused(
    ifaces: Map<u128, IfaceView>,
    uuid: u128,
    slots: Seq<Option<IpAddr>>,
    op: OpView,
)
    ensures
        netevent_requests(lookup_iface(ifaces.remove(uuid), uuid), slots, op) == Err::<
            Seq<RequestView>,
            PublishError,
        >(PublishError::UnknownInterface),
{
}

/// What every publisher keeps: each VIF has ten slots per address family, and no
/// address occupies two of them.
pub open spec fn slots_wf(s: XenstoreStd) -> bool {
    forall|vif: u32, v6: bool|
        #![trigger s.slot_list(vif, v6)]
        s.slot_list(vif, v6).len() == NUM_IFACE_IPS && slots_distinct(s.slot_list(vif, v6))
}

proof fn lemma_slot_list_keeps(list: Seq<Option<IpAddr>>, a: IpAddr)
    requires
        slots_distinct(list),
    ensures
        slots_distinct(ip_slot_list(list, a)),
        ip_slot_list(list, a).len() == list.len(),
{
    lemma_first_index(list, Some(a));
    lemma_first_index(list, None);
    let l1 = ip_slot_list(list, a);
    if first_index(list, Some(a)) is None {
        if let Some(k) = first_index(list, None) {
            assert forall|i: int, j: int|
                0 <= i < l1.len() && 0 <= j < l1.len() && i != j && l1[i] is Some implies l1[i]
                != l1[j] by {
                if i == k {
                    assert(list[j] != Some(a));
                } else if j == k {
                    assert(list[i] != Some(a));
                }
            }
        }
    }
}

/// A new publisher holds ten free slots per VIF and family.
pub proof fn lemma_new_slots_wf(s: XenstoreStd)
    requires
        forall|vif: u32, v6: bool| #[trigger] s.slot_list(vif, v6) == empty_slots(),
    ensures
        slots_wf(s),
{
    assert forall|vif: u32, v6: bool| #![trigger s.slot_list(vif, v6)]
        s.slot_list(vif, v6).len() == NUM_IFACE_IPS && slots_distinct(s.slot_list(vif, v6)) by {
        assert(s.slot_list(vif, v6) == empty_slots());
    }
}

/// Publishing a network event keeps every VIF's slots free of duplicates.
pub proof fn lemma_netevent_keeps_slots_wf(s: XenstoreStd, t: XenstoreStd, id: u128, op: OpView)
    requires
        slots_wf(s),
        netevent_next(s, t, id, op),
    ensures
        slots_wf(t),
{
    assert forall|vif: u32, v6: bool| #![trigger t.slot_list(vif, v6)]
        t.slot_list(vif, v6).len() == NUM_IFACE_IPS && slots_distinct(t.slot_list(vif, v6)) by {
        assert(s.slot_list(vif, v6).len() == NUM_IFACE_IPS && slots_distinct(s.slot_list(vif, v6)));
        match event_target(s, id, op) {
            Some((w, f, a)) => {
                if w == vif && f == v6 {
                    lemma_slot_list_keeps(s.slot_list(vif, v6), a);
                }
            },
            None => {},
        }
    }
}

/// Every other metric leaves the slots as they were, and with them what they keep.
pub proof fn lemma_same_slots_keeps_wf(s: XenstoreStd, t: XenstoreStd)
    requires
        slots_wf(s),
        same_slots(s, t),
    ensures
        slots_wf(t),
{
    assert forall|vif: u32, v6: bool| #![trigger t.slot_list(vif, v6)]
        t.slot_list(vif, v6).len() == NUM_IFACE_IPS && slots_distinct(t.slot_list(vif, v6)) by {
        assert(t.slot_list(vif, v6) == s.slot_list(vif, v6));
    }
}


proof fn lemma_slot_list_keeps_held(list: Seq<Option<IpAddr>>, a: IpAddr, k: int, b: IpAddr)
    requires
        0 <= k < list.len(),
        list[k] == Some(a),
    ensures
        ip_slot_list(list, b).len() == list.len(),
        ip_slot_list(list, b)[k] == Some(a),
{
    lemma_first_index(list, Some(b));
    lemma_first_index(list, None);
}

/// A slot that holds an address is that address's slot, and no other address is ever
/// given it.
pub proof fn lemma_held_slot(list: Seq<Option<IpAddr>>, a: IpAddr, k: int, b: IpAddr)
    requires
        slots_distinct(list),
        0 <= k < list.len(),
        list[k] == Some(a),
    ensures
        ip_slot(list, a) == Ok::<int, PublishError>(k),
        b != a && ip_slot(list, b) is Ok ==> ip_slot(list, b)->Ok_0 != k,
{
    lemma_first_index(list, Some(a));
    lemma_first_index(list, Some(b));
    lemma_first_index(list, None);
    match first_index(list, Some(a)) {
        Some(i) => {
            if i < k {
                assert(list[i] is Some && list[i] == list[k]);
            }
        },
        None => {},
    }
}

/// Once an address holds a slot of a VIF, it still holds it after any network event (the
/// other metrics leave the slots as they are).
pub proof fn lemma_address_keeps_slot(
    s: XenstoreStd,
    t: XenstoreStd,
    id: u128,
    op: OpView,
    vif: u32,
    v6: bool,
    k: int,
    a: IpAddr,
)
    requires
        0 <= k < s.slot_list(vif, v6).len(),
        s.slot_list(vif, v6)[k] == Some(a),
        netevent_next(s, t, id, op),
    ensures
        0 <= k < t.slot_list(vif, v6).len(),
        t.slot_list(vif, v6)[k] == Some(a),
{
    assert(t.slot_list(vif, v6) == t.slot_list(vif, v6));
    match event_target(s, id, op) {
        Some((w, f, b)) => {
            if w == vif && f == v6 {
                lemma_slot_list_keeps_held(s.slot_list(vif, v6), a, k, b);
            }
        },
        None => {},
    }
}

/// An address added to a VIF is written under `attr/vif/<n>/ipv4/<k>` (`ipv6` for an IPv6
/// address), `k` below ten; after that, removing the address removes that very key,
/// adding it again writes it again, and another address of the same family on that VIF
/// gets another slot.
pub proof fn lemma_netevent_slot_law(s: XenstoreStd, t: XenstoreStd, id: u128, a: IpAddr, b: IpAddr)
    requires
        slots_wf(s),
        lookup_iface(s.iface_map(), id) is Some,
        lookup_iface(s.iface_map(), id)->Some_0.toolstack_iface is Vif,
        netevent_requests(
            lookup_iface(s.iface_map(), id),
            event_slots(s, id, OpView::AddIp(a)),
            OpView::AddIp(a),
        ) is Ok,
        netevent_next(s, t, id, OpView::AddIp(a)),
    ensures
        ({
            let i = lookup_iface(s.iface_map(), id)->Some_0;
            let n = i.toolstack_iface->Vif_0;
            let v6 = is_v6(a);
            let k = ip_slot(s.slot_list(n, v6), a)->Ok_0;
            &&& 0 <= k < NUM_IFACE_IPS
            &&& netevent_requests(
                lookup_iface(s.iface_map(), id),
                event_slots(s, id, OpView::AddIp(a)),
                OpView::AddIp(a),
            ) == Ok::<Seq<RequestView>, PublishError>(
                seq![RequestView::Write(ip_key(n, v6, k), ip_text(a))],
            )
            &&& slots_wf(t)
            &&& t.slot_list(n, v6)[k] == Some(a)
            &&& netevent_requests(
                lookup_iface(t.iface_map(), id),
                event_slots(t, id, OpView::RmIp(a)),
                OpView::RmIp(a),
            ) == Ok::<Seq<RequestView>, PublishError>(seq![RequestView::Remove(ip_key(n, v6, k))])
            &&& netevent_requests(
                lookup_iface(t.iface_map(), id),
                event_slots(t, id, OpView::AddIp(a)),
                OpView::AddIp(a),
            ) == Ok::<Seq<RequestView>, PublishError>(
                seq![RequestView::Write(ip_key(n, v6, k), ip_text(a))],
            )
            &&& (b != a && is_v6(b) == v6 && ip_slot(t.slot_list(n, v6), b) is Ok) ==> ip_slot(
                t.slot_list(n, v6),
                b,
            )->Ok_0 != k
        }),
{
    let i = lookup_iface(s.iface_map(), id)->Some_0;
    let n = i.toolstack_iface->Vif_0;
    let v6 = is_v6(a);
    let list = s.slot_list(n, v6);
    assert(event_target(s, id, OpView::AddIp(a)) == Some((n, v6, a)));
    assert(event_slots(s, id, OpView::AddIp(a)) == list);
    assert(list.len() == NUM_IFACE_IPS && slots_distinct(list));
    lemma_ip_slot_stable(list, a);
    let k = ip_slot(list, a)->Ok_0;
    lemma_netevent_keeps_slots_wf(s, t, id, OpView::AddIp(a));
    assert(t.slot_list(n, v6) == ip_slot_list(list, a));
    let l2 = t.slot_list(n, v6);
    assert(l2.len() == NUM_IFACE_IPS && slots_distinct(l2));
    lemma_held_slot(l2, a, k, b);
    assert(lookup_iface(t.iface_map(), id) == lookup_iface(s.iface_map(), id));
    assert(event_slots(t, id, OpView::RmIp(a)) == l2);
    assert(event_slots(t, id, OpView::AddIp(a)) == l2);
}


/// Whether the balloon write is known to be refused once the outcomes `rs` of its writes
/// came back, in order, starting from `forbidden`.
pub open spec fn balloon_forbidden_after(forbidden: bool, rs: Seq<Result<(), XsFailure>>) -> bool
    decreases rs.len(),
{
    if rs.len() == 0 {
        forbidden
    } else {
        balloon_forbidden_after(
            forbidden || rs[0] == Err::<(), XsFailure>(XsFailure::PermissionDenied),
            rs.drop_first(),
        )
    }
}

/// A refused balloon write is final: once one of the outcomes is a refusal, whatever
/// came after it, no report of the operating system asks for the write again.  Until
/// then, every report asks for it, once, last.
pub proof fn lemma_balloon_refusal_is_final(
    forbidden: bool,
    rs: Seq<Result<(), XsFailure>>,
    v: AgentVersionView,
    info: OsInfoView,
)
    ensures
        balloon_forbidden_after(forbidden, rs) <==> (forbidden || rs.contains(
            Err::<(), XsFailure>(XsFailure::PermissionDenied),
        )),
        balloon_forbidden_after(forbidden, rs) ==> !osinfo_requests(
            v,
            info,
            balloon_forbidden_after(forbidden, rs),
        ).contains(RequestView::WriteBalloon),
        !balloon_forbidden_after(forbidden, rs) ==> osinfo_requests(
            v,
            info,
            balloon_forbidden_after(forbidden, rs),
        ).last() == RequestView::WriteBalloon,
    decreases rs.len(),
{
    let pd = Err::<(), XsFailure>(XsFailure::PermissionDenied);
    if rs.len() > 0 {
        lemma_balloon_refusal_is_final(forbidden || rs[0] == pd, rs.drop_first(), v, info);
        if rs.contains(pd) {
            let i = choose|i: int| 0 <= i < rs.len() && rs[i] == pd;
            if i > 0 {
                assert(rs.drop_first()[i - 1] == pd);
            }
        }
        if rs.drop_first().contains(pd) {
            let i = choose|i: int| 0 <= i < rs.drop_first().len() && rs.drop_first()[i] == pd;
            assert(rs[i + 1] == pd);
        }
    } else {
        assert(!rs.contains(pd));
    }
    let q = osinfo_requests(v, info, true);
    assert forall|i: int| 0 <= i < q.len() implies q[i] != RequestView::WriteBalloon by {
        if i >= 7 {
            match info.os_version {
                VersionView::Numbered(a, b, c) => {},
                VersionView::Custom(_) => {},
            }
        }
    }
}

} // verus!
