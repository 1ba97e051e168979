//! The publishers of the interface events of the cache-based netlink
//! collector: the proposed xenstore schema and the console.
use vstd::prelude::*;
use crate::agent::str_equal;
use crate::metrics::{ip_text, version_text, IpAddr, OsInfo, OsInfoView};
use crate::netlink_cache::{CacheEvent, CacheEventOp, CacheOpView, CachedInterface, CachedView};
use crate::text::{dec, push_decimal};
use crate::xs_request::{push_remove, push_write, requests_view, RequestView, XsRequest};
use crate::xs_rfc::{family_dir, lemma_family_key, munged_address, net_key, replace_char, rfc_munged};

verus! {

/// The xenstore schemas, by the name the `XENSTORE_SCHEMA` setting gives.
#[derive(Clone, Copy, Debug, PartialEq, Eq, Structural)]
pub enum SchemaName {
    Std,
    Rfc,
}

/// A schema name that is neither `std` nor `rfc`.
#[derive(Clone, Copy, Debug, PartialEq, Eq, Structural)]
pub struct UnknownSchema;

/// The schema a name stands for.
pub fn schema_from_name(name: &str) -> (r: Result<SchemaName, UnknownSchema>)
    ensures
        r == if name@ == "std"@ {
            Ok::<SchemaName, UnknownSchema>(SchemaName::Std)
        } else if name@ == "rfc"@ {
            Ok::<SchemaName, UnknownSchema>(SchemaName::Rfc)
        } else {
            Err::<SchemaName, UnknownSchema>(UnknownSchema)
        },
{
    if str_equal(name, "std") {
        Ok(SchemaName::Std)
    } else if str_equal(name, "rfc") {
        Ok(SchemaName::Rfc)
    } else {
        Err(UnknownSchema)
    }
}

/// What the index-keyed schema publishes of an interface event: under
/// `data/net/<index>`, the interface's name when it comes, its MAC address, its
/// addresses; the directory goes with the interface or its MAC address.
pub open spec fn cache_event_requests(iface: CachedView, op: CacheOpView) -> Seq<RequestView> {
    match op {
        CacheOpView::AddIface => seq![RequestView::Write(net_key(iface.index), iface.name)],
        CacheOpView::RmIface => seq![RequestView::Remove(net_key(iface.index))],
        CacheOpView::AddIp(a) => seq![
            RequestView::Write(net_key(iface.index) + seq!['/'] + rfc_munged(a), Seq::empty()),
        ],
        CacheOpView::RmIp(a) => seq![RequestView::Remove(net_key(iface.index) + seq!['/'] + rfc_munged(a))],
        CacheOpView::AddMac(m) => seq![RequestView::Write(net_key(iface.index), m)],
        CacheOpView::RmMac(_) => seq![RequestView::Remove(net_key(iface.index))],
    }
}

/// What the index-keyed schema publishes of the system.
pub open spec fn static_requests(protocol_version: Seq<char>, info: OsInfoView) -> Seq<RequestView> {
    seq![
        RequestView::Write("data/xen-guest-agent"@, protocol_version),
        RequestView::Write("data/os/name"@, info.os_type + " "@ + version_text(info.os_version)),
        RequestView::Write("data/os/version"@, version_text(info.os_version)),
        RequestView::Write("data/os/class"@, "unix"@),
    ] + match info.kernel_release {
        Some(r) => seq![RequestView::Write("data/os/unix/kernel-version"@, r)],
        None => Seq::empty(),
    }
}

/// The proposed schema, with interfaces keyed by their index.
pub struct Schema {
    pub protocol_version: String,
}

fn iface_prefix(index: u32) -> (s: String)
    ensures
        s@ == net_key(index),
{
    let mut s = "data/net/".to_owned();
    push_decimal(&mut s, index as u64);
    s
}

impl Schema {
    /// What publishing the system writes.
    pub fn publish_static(&self, info: &OsInfo) -> (r: Vec<XsRequest>)
        ensures
            requests_view(r@) == static_requests(self.protocol_version@, info@),
    {
        let mut out: Vec<XsRequest> = Vec::new();
        let vtext = info.os_base_info.os_version.to_text();
        let mut name = info.os_base_info.os_type.clone();
        name.append(" ");
        name.append(vtext.as_str());
        push_write(&mut out, "data/xen-guest-agent".to_owned(), self.protocol_version.clone());
        push_write(&mut out, "data/os/name".to_owned(), name);
        push_write(&mut out, "data/os/version".to_owned(), vtext);
        push_write(&mut out, "data/os/class".to_owned(), "unix".to_owned());
        match &info.kernel_info {
            Some(k) => {
                push_write(&mut out, "data/os/unix/kernel-version".to_owned(), k.release.clone());
            },
            None => {},
        }
        assert(requests_view(out@) =~= static_requests(self.protocol_version@, info@));
        out
    }

    /// Removal of every interface directory.
    pub fn cleanup_ifaces(&self) -> (r: Vec<XsRequest>)
        ensures
            requests_view(r@) == seq![RequestView::Remove("data/net"@)],
    {
        let mut out: Vec<XsRequest> = Vec::new();
        push_remove(&mut out, "data/net".to_owned());
        assert(requests_view(out@) =~= seq![RequestView::Remove("data/net"@)]);
        out
    }

    /// What publishing an interface event writes; `iface` is the interface the event
    /// names, as the cache holds it.
    pub fn publish_netevent(&self, iface: &CachedInterface, event: &CacheEvent) -> (r: Vec<XsRequest>)
        ensures
            requests_view(r@) == cache_event_requests(iface@, event@.1),
    {
        let mut out: Vec<XsRequest> = Vec::new();
        let prefix = iface_prefix(iface.index);
        match &event.op {
            CacheEventOp::AddIface => push_write(&mut out, prefix, iface.name.clone()),
            CacheEventOp::RmIface => push_remove(&mut out, prefix),
            CacheEventOp::AddIp(a) => {
                let mut key = prefix;
                key.push('/');
                let m = munged_address(*a);
                key.append(m.as_str());
                assert(key@ =~= net_key(iface.index) + seq!['/'] + rfc_munged(*a));
                push_write(&mut out, key, String::new());
            },
            CacheEventOp::RmIp(a) => {
                let mut key = prefix;
                key.push('/');
                let m = munged_address(*a);
                key.append(m.as_str());
                assert(key@ =~= net_key(iface.index) + seq!['/'] + rfc_munged(*a));
                push_remove(&mut out, key);
            },
            CacheEventOp::AddMac(m) => push_write(&mut out, prefix, m.clone()),
            CacheEventOp::RmMac(_) => push_remove(&mut out, prefix),
        }
        assert(requests_view(out@) =~= cache_event_requests(iface@, event@.1));
        out
    }
}

/// The line that reports an interface event on the console: the interface's name, then
/// the change.
pub open spec fn cache_event_line(iface: CachedView, op: CacheOpView) -> Seq<char> {
    iface.name + match op {
        CacheOpView::AddIface => " +IFACE"@,
        CacheOpView::RmIface => " -IFACE"@,
        CacheOpView::AddIp(a) => " +IP  "@ + ip_text(a),
        CacheOpView::RmIp(a) => " -IP  "@ + ip_text(a),
        CacheOpView::AddMac(m) => " +MAC "@ + m,
        CacheOpView::RmMac(m) => " -MAC "@ + m,
    }
}

/// The line that reports an interface event on the console.
pub fn console_netevent_line(iface: &CachedInterface, event: &CacheEvent) -> (r: String)
    ensures
        r@ == cache_event_line(iface@, event@.1),
{
    let mut l = iface.name.clone();
    match &event.op {
        CacheEventOp::AddIface => l.append(" +IFACE"),
        CacheEventOp::RmIface => l.append(" -IFACE"),
        CacheEventOp::AddIp(a) => {
            l.append(" +IP  ");
            l.append(a.to_text().as_str());
        },
        CacheEventOp::RmIp(a) => {
            l.append(" -IP  ");
            l.append(a.to_text().as_str());
        },
        CacheEventOp::AddMac(m) => {
            l.append(" +MAC ");
            l.append(m.as_str());
        },
        CacheEventOp::RmMac(m) => {
            l.append(" -MAC ");
            l.append(m.as_str());
        },
    }
    assert(l@ =~= cache_event_line(iface@, event@.1));
    l
}


/// The key that adding an address writes, in the index-keyed schema.
pub open spec fn cache_address_key(iface: CachedView, a: IpAddr) -> Seq<char> {
    cache_event_requests(iface, CacheOpView::AddIp(a))[0]->Write_0
}

/// In the index-keyed schema, adding an address writes one key, with an empty value: the
/// directory of the address's family under the interface's directory, then the address's
/// text with its separators replaced by `_`;
/// removing it asks for the removal of that very key and writes nothing, so the
/// interface's directory and its other keys stay.
pub proof fn lemma_cache_address_keys(iface: CachedView, a: IpAddr)
    ensures
        ({
            let k = cache_address_key(iface, a);
            let d = family_dir(iface.index, a is V6);
            &&& cache_event_requests(iface, CacheOpView::AddIp(a)) == seq![
                RequestView::Write(k, Seq::empty()),
            ]
            &&& cache_event_requests(iface, CacheOpView::RmIp(a)) == seq![RequestView::Remove(k)]
            &&& k.len() >= d.len()
            &&& k.take(d.len() as int) == d
            &&& k == d + replace_char(ip_text(a), if a is V6 { ':' } else { '.' }, '_')
            &&& k != net_key(iface.index)
        }),
{
    lemma_family_key(iface.index, a);
    let d = family_dir(iface.index, a is V6);
    let k = cache_address_key(iface, a);
    assert(d.len() == net_key(iface.index).len() + 6);
    assert(k.take(d.len() as int) =~= d);
    assert(k.len() != net_key(iface.index).len());
}

} // verus!
