//! The cache-based netlink collector, which keeps a cache of the interfaces it has seen (by
//! index, following their renames) and turns each message into interface events.
//!
//! An event names its interface by index: what the cache holds for that index is the
//! interface, as it is now.  A new interface is identified before it enters the cache,
//! which is outside work: `pending_identification` says which one, and the answer is
//! handed to `netevent_from_rtnetlink`.
use vstd::prelude::*;
use std::collections::HashMap;
use crate::metrics::{IpAddr, ToolstackNetInterface};
use crate::netlink::{AddressAttribute, AddressMessage, LinkAttribute, LinkMessage, RouteNetlinkMessage};
use crate::text::{mac_string, mac_text};

verus! {

/// An interface in the cache.
pub struct CachedInterface {
    pub index: u32,
    pub name: String,
    pub toolstack_iface: ToolstackNetInterface,
}

/// Abstract value of a `CachedInterface`.
pub struct CachedView {
    pub index: u32,
    pub name: Seq<char>,
    pub toolstack_iface: ToolstackNetInterface,
}

impl View for CachedInterface {
    type V = CachedView;

    open spec fn view(&self) -> CachedView {
        CachedView { index: self.index, name: self.name@, toolstack_iface: self.toolstack_iface }
    }
}

/// A change of an interface.
pub enum CacheEventOp {
    AddIface,
    RmIface,
    AddMac(String),
    RmMac(String),
    AddIp(IpAddr),
    RmIp(IpAddr),
}

/// A change of the interface that the cache holds under `index`.
pub struct CacheEvent {
    pub index: u32,
    pub op: CacheEventOp,
}

/// Abstract value of a `CacheEventOp`.
pub enum CacheOpView {
    AddIface,
    RmIface,
    AddMac(Seq<char>),
    RmMac(Seq<char>),
    AddIp(IpAddr),
    RmIp(IpAddr),
}

impl View for CacheEvent {
    type V = (u32, CacheOpView);

    open spec fn view(&self) -> (u32, CacheOpView) {
        (
            self.index,
            match self.op {
                CacheEventOp::AddIface => CacheOpView::AddIface,
                CacheEventOp::RmIface => CacheOpView::RmIface,
                CacheEventOp::AddMac(m) => CacheOpView::AddMac(m@),
                CacheEventOp::RmMac(m) => CacheOpView::RmMac(m@),
                CacheEventOp::AddIp(a) => CacheOpView::AddIp(a),
                CacheEventOp::RmIp(a) => CacheOpView::RmIp(a),
            },
        )
    }
}

pub open spec fn events_view(v: Seq<CacheEvent>) -> Seq<(u32, CacheOpView)> {
    v.map_values(|e: CacheEvent| e@)
}

/// Why a message could not be turned into events.
#[derive(Debug, Clone, Copy, PartialEq, Eq, Structural)]
pub enum NetlinkError {
    /// An address of an interface that is not in the cache.
    UnknownInterface(u32),
    /// An address message without an address.
    UnknownAddress,
    /// A message of another kind.
    Unhandled,
}

/// The last interface name among link attributes.
pub open spec fn last_name(attrs: Seq<LinkAttribute>) -> Option<Seq<char>>
    decreases attrs.len(),
{
    if attrs.len() == 0 {
        None
    } else {
        match attrs.last() {
            LinkAttribute::IfName(n) => Some(n@),
            _ => last_name(attrs.drop_last()),
        }
    }
}

/// The last hardware address among link attributes.
pub open spec fn last_hw(attrs: Seq<LinkAttribute>) -> Option<Seq<u8>>
    decreases attrs.len(),
{
    if attrs.len() == 0 {
        None
    } else {
        match attrs.last() {
            LinkAttribute::Address(a) => Some(a@),
            _ => last_hw(attrs.drop_last()),
        }
    }
}

/// The MAC address of a link message: its last hardware address, written as a MAC
/// address.
pub open spec fn link_mac(attrs: Seq<LinkAttribute>) -> Option<Seq<char>> {
    match last_hw(attrs) {
        Some(b) => Some(mac_text(b)),
        None => None,
    }
}

/// The name an interface enters the cache with: the message's name, or the empty name.
pub open spec fn entry_name(attrs: Seq<LinkAttribute>) -> Seq<char> {
    match last_name(attrs) {
        Some(n) => n,
        None => Seq::empty(),
    }
}

/// The cache once a link message is decoded: an interface that is not cached enters it
/// (identified as `t`); a cached one takes the message's name, if it carries one.
pub open spec fn cache_after_link(cache: Map<u32, CachedView>, l: LinkMessage, t: ToolstackNetInterface) -> Map<
    u32,
    CachedView,
> {
    if cache.contains_key(l.index) {
        match last_name(l.attributes@) {
            Some(n) => cache.insert(l.index, CachedView { name: n, ..cache[l.index] }),
            None => cache,
        }
    } else {
        cache.insert(
            l.index,
            CachedView { index: l.index, name: entry_name(l.attributes@), toolstack_iface: t },
        )
    }
}

/// The first IP address among address attributes.
pub open spec fn first_address(attrs: Seq<AddressAttribute>) -> Option<IpAddr>
    decreases attrs.len(),
{
    if attrs.len() == 0 {
        None
    } else {
        match attrs[0] {
            AddressAttribute::Address(a) => Some(a),
            _ => first_address(attrs.drop_first()),
        }
    }
}

/// The events of an address message: refused for an interface not in the cache, or for
/// a message without an address.
pub open spec fn address_events(cache: Map<u32, CachedView>, a: AddressMessage, add: bool) -> Result<
    Seq<(u32, CacheOpView)>,
    NetlinkError,
> {
    if !cache.contains_key(a.index) {
        Err(NetlinkError::UnknownInterface(a.index))
    } else {
        match first_address(a.attributes@) {
            Some(ip) => Ok(
                seq![(a.index, if add {
                    CacheOpView::AddIp(ip)
                } else {
                    CacheOpView::RmIp(ip)
                })],
            ),
            None => Err(NetlinkError::UnknownAddress),
        }
    }
}

/// The events of a message: a new link is added, then its MAC address; a link that
/// goes loses its MAC address, then goes; addresses come and go; another message is
/// refused.
pub open spec fn cache_events(cache: Map<u32, CachedView>, msg: RouteNetlinkMessage) -> Result<
    Seq<(u32, CacheOpView)>,
    NetlinkError,
> {
    match msg {
        RouteNetlinkMessage::NewLink(l) => Ok(
            seq![(l.index, CacheOpView::AddIface)] + match link_mac(l.attributes@) {
                Some(m) => seq![(l.index, CacheOpView::AddMac(m))],
                None => Seq::empty(),
            },
        ),
        RouteNetlinkMessage::DelLink(l) => Ok(
            match link_mac(l.attributes@) {
                Some(m) => seq![(l.index, CacheOpView::RmMac(m))],
                None => Seq::empty(),
            } + seq![(l.index, CacheOpView::RmIface)],
        ),
        RouteNetlinkMessage::NewAddress(a) => address_events(cache, a, true),
        RouteNetlinkMessage::DelAddress(a) => address_events(cache, a, false),
        _ => Err(NetlinkError::Unhandled),
    }
}

/// The cache after a message.
pub open spec fn cache_next(cache: Map<u32, CachedView>, msg: RouteNetlinkMessage, t: ToolstackNetInterface) -> Map<
    u32,
    CachedView,
> {
    match msg {
        RouteNetlinkMessage::NewLink(l) => cache_after_link(cache, l, t),
        RouteNetlinkMessage::DelLink(l) => cache_after_link(cache, l, t),
        _ => cache,
    }
}

pub open spec fn cache_result_view(r: Result<Vec<CacheEvent>, NetlinkError>) -> Result<
    Seq<(u32, CacheOpView)>,
    NetlinkError,
> {
    match r {
        Ok(v) => Ok(events_view(v@)),
        Err(e) => Err(e),
    }
}

/// The link attributes of interest: the last name and the last hardware address, as
/// text.
fn decode_link_attributes(attrs: &Vec<LinkAttribute>) -> (r: (Option<String>, Option<String>))
    ensures
        match r.0 {
            Some(n) => last_name(attrs@) == Some(n@),
            None => last_name(attrs@) is None,
        },
        match r.1 {
            Some(m) => link_mac(attrs@) == Some(m@),
            None => link_mac(attrs@) is None,
        },
{
    let mut name: Option<String> = None;
    let mut hw: Option<&Vec<u8>> = None;
    let mut i: usize = 0;
    while i < attrs.len()
        invariant
            i <= attrs.len(),
            match name {
                Some(n) => last_name(attrs@.take(i as int)) == Some(n@),
                None => last_name(attrs@.take(i as int)) is None,
            },
            match hw {
                Some(b) => last_hw(attrs@.take(i as int)) == Some(b@),
                None => last_hw(attrs@.take(i as int)) is None,
            },
        decreases attrs.len() - i,
    {
        assert(attrs@.take(i + 1).drop_last() =~= attrs@.take(i as int));
        assert(attrs@.take(i + 1).last() == attrs@[i as int]);
        match &attrs[i] {
            LinkAttribute::IfName(n) => {
                name = Some(n.clone());
            },
            LinkAttribute::Address(a) => {
                hw = Some(a);
            },
            LinkAttribute::Other => {},
        }
        i = i + 1;
    }
    assert(attrs@.take(attrs.len() as int) =~= attrs@);
    let mac = match hw {
        Some(b) => Some(mac_string(b)),
        None => None,
    };
    (name, mac)
}

fn find_address(attrs: &Vec<AddressAttribute>) -> (r: Option<IpAddr>)
    ensures
        r == first_address(attrs@),
{
    let mut i: usize = 0;
    assert(attrs@.skip(0) =~= attrs@);
    while i < attrs.len()
        invariant
            i <= attrs.len(),
            first_address(attrs@) == first_address(attrs@.skip(i as int)),
        decreases attrs.len() - i,
    {
        assert(attrs@.skip(i as int)[0] == attrs@[i as int]);
        assert(attrs@.skip(i as int).drop_first() =~= attrs@.skip(i + 1));
        if let AddressAttribute::Address(a) = &attrs[i] {
            return Some(*a);
        }
        i = i + 1;
    }
    None
}

/// The cache-based netlink collector: its cache of interfaces, by index.
pub struct NetlinkNetworkSource {
    iface_cache: HashMap<u32, CachedInterface>,
}

impl NetlinkNetworkSource {
    /// The interfaces in the cache, by index.
    pub closed spec fn cache(&self) -> Map<u32, CachedView> {
        self.iface_cache@.map_values(|i: CachedInterface| i@)
    }

    /// A collector with an empty cache.
    pub fn new() -> (r: NetlinkNetworkSource)
        ensures
            r.cache() == Map::<u32, CachedView>::empty(),
    {
        let r = NetlinkNetworkSource { iface_cache: HashMap::new() };
        assert(r.cache() =~= Map::<u32, CachedView>::empty());
        r
    }

    /// A copy of the interface cached under `index`, if any.
    pub fn cached(&self, index: u32) -> (r: Option<CachedInterface>)
        ensures
            match r {
                Some(i) => self.cache().contains_key(index) && i@ == self.cache()[index],
                None => !self.cache().contains_key(index),
            },
    {
        broadcast use vstd::std_specs::hash::group_hash_axioms;
        match self.iface_cache.get(&index) {
            Some(i) => Some(
                CachedInterface {
                    index: i.index,
                    name: i.name.clone(),
                    toolstack_iface: i.toolstack_iface,
                },
            ),
            None => None,
        }
    }

    /// The interface that must be identified before a message is handled: that of a
    /// link message whose index is not in the cache, with the name it enters the cache
    /// with.
    pub fn pending_identification(&self, msg: &RouteNetlinkMessage) -> (r: Option<(u32, String)>)
        ensures
            match *msg {
                RouteNetlinkMessage::NewLink(l) => if self.cache().contains_key(l.index) {
                    r is None
                } else {
                    r is Some && r->Some_0.0 == l.index && r->Some_0.1@ == entry_name(l.attributes@)
                },
                RouteNetlinkMessage::DelLink(l) => if self.cache().contains_key(l.index) {
                    r is None
                } else {
                    r is Some && r->Some_0.0 == l.index && r->Some_0.1@ == entry_name(l.attributes@)
                },
                _ => r is None,
            },
    {
        broadcast use vstd::std_specs::hash::group_hash_axioms;
        let l = match msg {
            RouteNetlinkMessage::NewLink(l) => l,
            RouteNetlinkMessage::DelLink(l) => l,
            _ => {
                return None;
            },
        };
        if self.iface_cache.contains_key(&l.index) {
            return None;
        }
        let (name, _) = decode_link_attributes(&l.attributes);
        Some(
            (
                l.index,
                match name {
                    Some(n) => n,
                    None => String::new(),
                },
            ),
        )
    }

    /// The link message's interface, entered in the cache or renamed, and its MAC address.
    fn nl_linkmessage_decode(&mut self, l: &LinkMessage, t: ToolstackNetInterface) -> (r: Option<String>)
        ensures
            match r {
                Some(m) => link_mac(l.attributes@) == Some(m@),
                None => link_mac(l.attributes@) is None,
            },
            final(self).cache() == cache_after_link(old(self).cache(), *l, t),
    {
        broadcast use vstd::std_specs::hash::group_hash_axioms;
        let (name, mac) = decode_link_attributes(&l.attributes);
        let ghost c0 = self.cache();
        match self.iface_cache.remove(&l.index) {
            Some(mut iface) => {
                let ghost before = iface@;
                if let Some(n) = name {
                    iface.name = n;
                }
                self.iface_cache.insert(l.index, iface);
                assert(self.cache() =~= cache_after_link(c0, *l, t));
            },
            None => {
                let iface = CachedInterface {
                    index: l.index,
                    name: match name {
                        Some(n) => n,
                        None => String::new(),
                    },
                    toolstack_iface: t,
                };
                self.iface_cache.insert(l.index, iface);
                assert(self.cache() =~= cache_after_link(c0, *l, t));
            },
        }
        mac
    }

    /// The events of a message, and the cache after it; `t` is what the interface of a
    /// link message that is not in the cache was identified as (see
    /// `pending_identification`), and is not used otherwise.
    pub fn netevent_from_rtnetlink(&mut self, msg: &RouteNetlinkMessage, t: ToolstackNetInterface) -> (r: Result<
        Vec<CacheEvent>,
        NetlinkError,
    >)
        ensures
            cache_result_view(r) == cache_events(old(self).cache(), *msg),
            final(self).cache() == cache_next(old(self).cache(), *msg, t),
    {
        broadcast use vstd::std_specs::hash::group_hash_axioms;
        let mut events: Vec<CacheEvent> = Vec::new();
        assert(events_view(events@) =~= Seq::<(u32, CacheOpView)>::empty());
        match msg {
            RouteNetlinkMessage::NewLink(l) => {
                let mac = self.nl_linkmessage_decode(l, t);
                events.push(CacheEvent { index: l.index, op: CacheEventOp::AddIface });
                if let Some(m) = mac {
                    events.push(CacheEvent { index: l.index, op: CacheEventOp::AddMac(m) });
                }
                assert(events_view(events@) =~= seq![(l.index, CacheOpView::AddIface)] + match link_mac(l.attributes@) {
                    Some(m) => seq![(l.index, CacheOpView::AddMac(m))],
                    None => Seq::empty(),
                });
                Ok(events)
            },
            RouteNetlinkMessage::DelLink(l) => {
                let mac = self.nl_linkmessage_decode(l, t);
                if let Some(m) = mac {
                    events.push(CacheEvent { index: l.index, op: CacheEventOp::RmMac(m) });
                }
                events.push(CacheEvent { index: l.index, op: CacheEventOp::RmIface });
                assert(events_view(events@) =~= match link_mac(l.attributes@) {
                    Some(m) => seq![(l.index, CacheOpView::RmMac(m))],
                    None => Seq::empty(),
                } + seq![(l.index, CacheOpView::RmIface)]);
                Ok(events)
            },
            RouteNetlinkMessage::NewAddress(a) => {
                let addr = find_address(&a.attributes);
                if !self.iface_cache.contains_key(&a.index) {
                    return Err(NetlinkError::UnknownInterface(a.index));
                }
                match addr {
                    Some(ip) => {
                        events.push(CacheEvent { index: a.index, op: CacheEventOp::AddIp(ip) });
                        assert(events_view(events@) =~= seq![(a.index, CacheOpView::AddIp(ip))]);
                        Ok(events)
                    },
                    None => Err(NetlinkError::UnknownAddress),
                }
            },
            RouteNetlinkMessage::DelAddress(a) => {
                let addr = find_address(&a.attributes);
                if !self.iface_cache.contains_key(&a.index) {
                    return Err(NetlinkError::UnknownInterface(a.index));
                }
                match addr {
                    Some(ip) => {
                        events.push(CacheEvent { index: a.index, op: CacheEventOp::RmIp(ip) });
                        assert(events_view(events@) =~= seq![(a.index, CacheOpView::RmIp(ip))]);
                        Ok(events)
                    },
                    None => Err(NetlinkError::UnknownAddress),
                }
            },
            _ => Err(NetlinkError::Unhandled),
        }
    }
}


/// Address messages of the cache-based collector: for a cached interface, a new address
/// gives exactly one `AddIp` of the message's address and a deleted one exactly one
/// `RmIp` of it, under the message's index; a message without an address, or of an
/// interface that is not cached, is refused the same way whichever it is; and address
/// messages leave the cache as it is.
pub proof fn lemma_cache_address_messages(
    cache: Map<u32, CachedView>,
    a: AddressMessage,
    t: ToolstackNetInterface,
)
    ensures
        cache_next(cache, RouteNetlinkMessage::NewAddress(a), t) == cache,
        cache_next(cache, RouteNetlinkMessage::DelAddress(a), t) == cache,
        !cache.contains_key(a.index) ==> {
            &&& cache_events(cache, RouteNetlinkMessage::NewAddress(a)) == Err::<
                Seq<(u32, CacheOpView)>,
                NetlinkError,
            >(NetlinkError::UnknownInterface(a.index))
            &&& cache_events(cache, RouteNetlinkMessage::DelAddress(a)) == Err::<
                Seq<(u32, CacheOpView)>,
                NetlinkError,
            >(NetlinkError::UnknownInterface(a.index))
        },
        cache.contains_key(a.index) ==> match first_address(a.attributes@) {
            Some(ip) => {
                &&& cache_events(cache, RouteNetlinkMessage::NewAddress(a)) == Ok::<
                    Seq<(u32, CacheOpView)>,
                    NetlinkError,
                >(seq![(a.index, CacheOpView::AddIp(ip))])
                &&& cache_events(cache, RouteNetlinkMessage::DelAddress(a)) == Ok::<
                    Seq<(u32, CacheOpView)>,
                    NetlinkError,
                >(seq![(a.index, CacheOpView::RmIp(ip))])
            },
            None => {
                &&& cache_events(cache, RouteNetlinkMessage::NewAddress(a)) == Err::<
                    Seq<(u32, CacheOpView)>,
                    NetlinkError,
                >(NetlinkError::UnknownAddress)
                &&& cache_events(cache, RouteNetlinkMessage::DelAddress(a)) == Err::<
                    Seq<(u32, CacheOpView)>,
                    NetlinkError,
                >(NetlinkError::UnknownAddress)
            },
        },
{
}

} // verus!
