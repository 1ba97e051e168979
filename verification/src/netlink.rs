//! The network collector that follows the kernel's route-netlink messages.
//!
//! The messages are held here as plain values; telling a VIF is outside work (it reads
//! sysfs or xenstore), so a link message is handled in two steps: the step asks for the
//! interface to be identified, and the answer is handed back to `on_identified`.
use vstd::prelude::*;
use std::collections::HashMap;
use crate::metrics::{
    GuestMetric, IfaceView, IpAddr, MetricView, NetEvent, NetEventOp, NetInterface, OpView,
    ToolstackNetInterface,
};
use crate::simple_net::{is_v4_uuid, new_uuid};
use crate::text::{mac_string, mac_text};

verus! {

/// An attribute of a link message.
pub enum LinkAttribute {
    IfName(String),
    Address(Vec<u8>),
    Other,
}

/// A message about a link: the interface's index and the attributes, in order.
pub struct LinkMessage {
    pub index: u32,
    pub attributes: Vec<LinkAttribute>,
}

/// An attribute of an address message.
pub enum AddressAttribute {
    Address(IpAddr),
    Other,
}

/// A message about an address of the interface of index `index`.
pub struct AddressMessage {
    pub index: u32,
    pub attributes: Vec<AddressAttribute>,
}

/// The route-netlink messages the collector reads.
pub enum RouteNetlinkMessage {
    NewLink(LinkMessage),
    GetLink(LinkMessage),
    DelLink(LinkMessage),
    NewAddress(AddressMessage),
    GetAddress(AddressMessage),
    DelAddress(AddressMessage),
    Other,
}

/// The first interface name among link attributes.
pub open spec fn first_name(attrs: Seq<LinkAttribute>) -> Option<Seq<char>>
    decreases attrs.len(),
{
    if attrs.len() == 0 {
        None
    } else {
        match attrs[0] {
            LinkAttribute::IfName(n) => Some(n@),
            _ => first_name(attrs.drop_first()),
        }
    }
}

/// The first hardware address among link attributes.
pub open spec fn first_hw(attrs: Seq<LinkAttribute>) -> Option<Seq<u8>>
    decreases attrs.len(),
{
    if attrs.len() == 0 {
        None
    } else {
        match attrs[0] {
            LinkAttribute::Address(a) => Some(a@),
            _ => first_hw(attrs.drop_first()),
        }
    }
}

/// The first IP address among address attributes.
pub open spec fn first_ip(attrs: Seq<AddressAttribute>) -> Option<IpAddr>
    decreases attrs.len(),
{
    if attrs.len() == 0 {
        None
    } else {
        match attrs[0] {
            AddressAttribute::Address(a) => Some(a),
            _ => first_ip(attrs.drop_first()),
        }
    }
}

/// What handling a message leads to.
pub enum NetlinkStep {
    /// A metric to hand to the publisher.
    Metric(GuestMetric),
    /// The interface must be identified; the answer goes to `on_identified`.
    Identify { index: u32, name: String, mac: Option<String> },
    /// Nothing to do.
    Nothing,
}

/// Abstract value of a `NetlinkStep`.
pub enum StepView {
    Metric(MetricView),
    Identify(u32, Seq<char>, Option<Seq<char>>),
    Nothing,
}

impl View for NetlinkStep {
    type V = StepView;

    open spec fn view(&self) -> StepView {
        match self {
            NetlinkStep::Metric(m) => StepView::Metric(m@),
            NetlinkStep::Identify { index, name, mac } => StepView::Identify(
                *index,
                name@,
                match mac {
                    Some(m) => Some(m@),
                    None => None,
                },
            ),
            NetlinkStep::Nothing => StepView::Nothing,
        }
    }
}

/// A link that is announced or listed: an unnamed one is ignored, a named one must be
/// identified, with its hardware address written as a MAC address.
pub open spec fn link_step(l: LinkMessage) -> StepView {
    match first_name(l.attributes@) {
        None => StepView::Nothing,
        Some(n) => StepView::Identify(
            l.index,
            n,
            match first_hw(l.attributes@) {
                Some(b) => Some(mac_text(b)),
                None => None,
            },
        ),
    }
}

/// An address that is added (`add`) or removed: reported for a known interface when the
/// message carries an address.
pub open spec fn address_step(ifaces: Map<u32, u128>, a: AddressMessage, add: bool) -> StepView {
    if ifaces.contains_key(a.index) {
        match first_ip(a.attributes@) {
            Some(ip) => StepView::Metric(
                MetricView::Network {
                    iface_id: ifaces[a.index],
                    op: if add {
                        OpView::AddIp(ip)
                    } else {
                        OpView::RmIp(ip)
                    },
                },
            ),
            None => StepView::Nothing,
        }
    } else {
        StepView::Nothing
    }
}

/// What a message leads to, given the interfaces identified so far (by index).
pub open spec fn netlink_step(ifaces: Map<u32, u128>, msg: RouteNetlinkMessage) -> StepView {
    match msg {
        RouteNetlinkMessage::NewLink(l) => link_step(l),
        RouteNetlinkMessage::GetLink(l) => link_step(l),
        RouteNetlinkMessage::DelLink(l) => if ifaces.contains_key(l.index) {
            StepView::Metric(MetricView::RmIface(ifaces[l.index]))
        } else {
            StepView::Nothing
        },
        RouteNetlinkMessage::NewAddress(a) => address_step(ifaces, a, true),
        RouteNetlinkMessage::GetAddress(a) => address_step(ifaces, a, true),
        RouteNetlinkMessage::DelAddress(a) => address_step(ifaces, a, false),
        RouteNetlinkMessage::Other => StepView::Nothing,
    }
}

fn find_name(attrs: &Vec<LinkAttribute>) -> (r: Option<String>)
    ensures
        match r {
            Some(n) => first_name(attrs@) == Some(n@),
            None => first_name(attrs@) is None,
        },
{
    let mut i: usize = 0;
    assert(attrs@.skip(0) =~= attrs@);
    while i < attrs.len()
        invariant
            i <= attrs.len(),
            first_name(attrs@) == first_name(attrs@.skip(i as int)),
        decreases attrs.len() - i,
    {
        assert(attrs@.skip(i as int)[0] == attrs@[i as int]);
        assert(attrs@.skip(i as int).drop_first() =~= attrs@.skip(i + 1));
        if let LinkAttribute::IfName(n) = &attrs[i] {
            return Some(n.clone());
        }
        i = i + 1;
    }
    None
}

fn find_hw(attrs: &Vec<LinkAttribute>) -> (r: Option<String>)
    ensures
        match r {
            Some(m) => first_hw(attrs@) is Some && m@ == mac_text(first_hw(attrs@)->Some_0),
            None => first_hw(attrs@) is None,
        },
{
    let mut i: usize = 0;
    assert(attrs@.skip(0) =~= attrs@);
    while i < attrs.len()
        invariant
            i <= attrs.len(),
            first_hw(attrs@) == first_hw(attrs@.skip(i as int)),
        decreases attrs.len() - i,
    {
        assert(attrs@.skip(i as int)[0] == attrs@[i as int]);
        assert(attrs@.skip(i as int).drop_first() =~= attrs@.skip(i + 1));
        if let LinkAttribute::Address(a) = &attrs[i] {
            return Some(mac_string(a));
        }
        i = i + 1;
    }
    None
}

fn find_ip(attrs: &Vec<AddressAttribute>) -> (r: Option<IpAddr>)
    ensures
        r == first_ip(attrs@),
{
    let mut i: usize = 0;
    assert(attrs@.skip(0) =~= attrs@);
    while i < attrs.len()
        invariant
            i <= attrs.len(),
            first_ip(attrs@) == first_ip(attrs@.skip(i as int)),
        decreases attrs.len() - i,
    {
        assert(attrs@.skip(i as int)[0] == attrs@[i as int]);
        assert(attrs@.skip(i as int).drop_first() =~= attrs@.skip(i + 1));
        if let AddressAttribute::Address(a) = &attrs[i] {
            return Some(*a);
        }
        i = i + 1;
    }
    None
}

/// The netlink collector: the interfaces identified so far, by index.
pub struct NetlinkPlugin {
    interfaces: HashMap<u32, u128>,
}

impl NetlinkPlugin {
    /// The identifier given to each interface identified so far, by index.
    pub closed spec fn index_map(&self) -> Map<u32, u128> {
        self.interfaces@
    }

    /// A collector that knows no interface yet.
    pub fn new() -> (r: NetlinkPlugin)
        ensures
            r.index_map() == Map::<u32, u128>::empty(),
    {
        NetlinkPlugin { interfaces: HashMap::new() }
    }

    fn address_event(&self, a: &AddressMessage, add: bool) -> (r: NetlinkStep)
        ensures
            r@ == address_step(self.index_map(), *a, add),
    {
        broadcast use vstd::std_specs::hash::group_hash_axioms;
        let iface_id = match self.interfaces.get(&a.index) {
            Some(u) => *u,
            None => {
                return NetlinkStep::Nothing;
            },
        };
        match find_ip(&a.attributes) {
            Some(ip) => NetlinkStep::Metric(
                GuestMetric::Network(
                    NetEvent {
                        iface_id,
                        op: if add {
                            NetEventOp::AddIp(ip)
                        } else {
                            NetEventOp::RmIp(ip)
                        },
                    },
                ),
            ),
            None => NetlinkStep::Nothing,
        }
    }

    fn link_event(l: &LinkMessage) -> (r: NetlinkStep)
        ensures
            r@ == link_step(*l),
    {
        match find_name(&l.attributes) {
            None => NetlinkStep::Nothing,
            Some(name) => {
                let mac = find_hw(&l.attributes);
                NetlinkStep::Identify { index: l.index, name, mac }
            },
        }
    }

    /// What a message leads to: a link that is announced or listed must be identified; a
    /// link that goes away, or an address that comes or goes, of an identified interface
    /// is reported; the rest is ignored.
    pub fn process_message(&self, msg: &RouteNetlinkMessage) -> (r: NetlinkStep)
        ensures
            r@ == netlink_step(self.index_map(), *msg),
    {
        broadcast use vstd::std_specs::hash::group_hash_axioms;
        match msg {
            RouteNetlinkMessage::NewLink(l) => Self::link_event(l),
            RouteNetlinkMessage::GetLink(l) => Self::link_event(l),
            RouteNetlinkMessage::DelLink(l) => match self.interfaces.get(&l.index) {
                Some(u) => NetlinkStep::Metric(GuestMetric::RmIface(*u)),
                None => NetlinkStep::Nothing,
            },
            RouteNetlinkMessage::NewAddress(a) => self.address_event(a, true),
            RouteNetlinkMessage::GetAddress(a) => self.address_event(a, true),
            RouteNetlinkMessage::DelAddress(a) => self.address_event(a, false),
            RouteNetlinkMessage::Other => NetlinkStep::Nothing,
        }
    }

    /// The answer of the identification of interface `index`: an interface that is not
    /// identified is ignored; one that is gets a fresh random identifier, remembered
    /// for its index, and is announced.
    pub fn on_identified(
        &mut self,
        index: u32,
        name: String,
        toolstack_iface: Option<ToolstackNetInterface>,
    ) -> (r: Option<GuestMetric>)
        ensures
            match toolstack_iface {
                None => r is None && final(self).index_map() == old(self).index_map(),
                Some(t) => r is Some && r->Some_0 is AddIface && ({
                    let i = r->Some_0->AddIface_0;
                    &&& is_v4_uuid(i.uuid)
                    &&& i@ == IfaceView { uuid: i.uuid, index, name: name@, toolstack_iface: t }
                    &&& final(self).index_map() == old(self).index_map().insert(index, i.uuid)
                }),
            },
    {
        broadcast use vstd::std_specs::hash::group_hash_axioms;
        match toolstack_iface {
            None => None,
            Some(t) => {
                let uuid = new_uuid();
                self.interfaces.insert(index, uuid);
                Some(GuestMetric::AddIface(NetInterface { uuid, index, name, toolstack_iface: t }))
            },
        }
    }
}


/// Address messages of an identified interface that carry an address are reported
/// under the interface's identifier: a new or listed address is added, a deleted one is
/// removed, and never the other way round.  A message of an interface that is not
/// identified, or one without an address, leads to nothing.
pub proof fn lemma_address_messages(ifaces: Map<u32, u128>, a: AddressMessage)
    ensures
        match (ifaces.contains_key(a.index), first_ip(a.attributes@)) {
            (true, Some(ip)) => {
                &&& netlink_step(ifaces, RouteNetlinkMessage::DelAddress(a)) == StepView::Metric(
                    MetricView::Network { iface_id: ifaces[a.index], op: OpView::RmIp(ip) },
                )
                &&& netlink_step(ifaces, RouteNetlinkMessage::NewAddress(a)) == StepView::Metric(
                    MetricView::Network { iface_id: ifaces[a.index], op: OpView::AddIp(ip) },
                )
                &&& netlink_step(ifaces, RouteNetlinkMessage::GetAddress(a)) == StepView::Metric(
                    MetricView::Network { iface_id: ifaces[a.index], op: OpView::AddIp(ip) },
                )
            },
            _ => {
                &&& netlink_step(ifaces, RouteNetlinkMessage::DelAddress(a)) == StepView::Nothing
                &&& netlink_step(ifaces, RouteNetlinkMessage::NewAddress(a)) == StepView::Nothing
                &&& netlink_step(ifaces, RouteNetlinkMessage::GetAddress(a)) == StepView::Nothing
            },
        },
{
}

} // verus!
