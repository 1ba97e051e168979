//! Network interface tracking by periodic snapshots: the differences between two
//! snapshots of the guest's interfaces become the metrics sent to the publisher.
use vstd::prelude::*;
use crate::metrics::{
    clone_opt_string, metrics_view, opt_string_view, GuestMetric, IfaceView, IpAddr, MetricView,
    NetEvent, NetEventOp, NetInterface, OpView, ToolstackNetInterface,
};

verus! {

/// One address of a network interface.
#[derive(Clone, Copy, Debug, PartialEq, Eq, Structural)]
pub struct IfAddr {
    pub ip: IpAddr,
    pub broadcast: Option<IpAddr>,
    pub netmask: Option<IpAddr>,
}

/// A network interface as the system lists it.
#[derive(Debug)]
pub struct InterfaceSnapshot {
    pub name: String,
    pub addr: Vec<IfAddr>,
    pub mac_addr: Option<String>,
    pub index: u32,
    pub internal: bool,
}

/// Abstract value of an `InterfaceSnapshot`.
pub struct SnapshotView {
    pub name: Seq<char>,
    pub addr: Seq<IfAddr>,
    pub mac_addr: Option<Seq<char>>,
    pub index: u32,
    pub internal: bool,
}

impl View for InterfaceSnapshot {
    type V = SnapshotView;

    open spec fn view(&self) -> SnapshotView {
        SnapshotView {
            name: self.name@,
            addr: self.addr@,
            mac_addr: opt_string_view(self.mac_addr),
            index: self.index,
            internal: self.internal,
        }
    }
}

fn copy_addrs(v: &Vec<IfAddr>) -> (r: Vec<IfAddr>)
    ensures
        r@ == v@,
{
    let mut r: Vec<IfAddr> = Vec::new();
    let mut i: usize = 0;
    while i < v.len()
        invariant
            i <= v.len(),
            r@ == v@.take(i as int),
        decreases v.len() - i,
    {
        r.push(v[i]);
        assert(r@ =~= v@.take(i + 1));
        i = i + 1;
    }
    assert(v@.take(v.len() as int) =~= v@);
    r
}

impl InterfaceSnapshot {
    /// A copy of the snapshot.
    pub fn duplicate(&self) -> (r: InterfaceSnapshot)
        ensures
            r@ == self@,
    {
        InterfaceSnapshot {
            name: self.name.clone(),
            addr: copy_addrs(&self.addr),
            mac_addr: clone_opt_string(&self.mac_addr),
            index: self.index,
            internal: self.internal,
        }
    }

    /// Whether two snapshots are equal in every field.
    pub fn same_as(&self, other: &InterfaceSnapshot) -> (r: bool)
        ensures
            r == (self@ == other@),
    {
        if self.index != other.index || self.internal != other.internal {
            return false;
        }
        if self.name != other.name {
            return false;
        }
        let mac_same = match (&self.mac_addr, &other.mac_addr) {
            (Some(a), Some(b)) => *a == *b,
            (None, None) => true,
            _ => false,
        };
        if !mac_same {
            return false;
        }
        if self.addr.len() != other.addr.len() {
            return false;
        }
        let mut i: usize = 0;
        while i < self.addr.len()
            invariant
                self.addr.len() == other.addr.len(),
                i <= self.addr.len(),
                forall|k: int| 0 <= k < i ==> self.addr@[k] == other.addr@[k],
            decreases self.addr.len() - i,
        {
            if self.addr[i] != other.addr[i] {
                return false;
            }
            i = i + 1;
        }
        assert(self.addr@ =~= other.addr@);
        true
    }
}

/// Whether an address occurs in a list of addresses.
pub fn addr_contains(v: &Vec<IfAddr>, a: IfAddr) -> (r: bool)
    ensures
        r == v@.contains(a),
{
    let mut i: usize = 0;
    while i < v.len()
        invariant
            i <= v.len(),
            forall|k: int| 0 <= k < i ==> v@[k] != a,
        decreases v.len() - i,
    {
        if v[i] == a {
            assert(v@[i as int] == a);
            return true;
        }
        i = i + 1;
    }
    false
}


/// Abstract value of one tracked interface: its last snapshot and its identifier.
pub struct TrackedView {
    pub snapshot: SnapshotView,
    pub uuid: u128,
}

/// The abstract values of a list of snapshots.
pub open spec fn snaps(v: Seq<InterfaceSnapshot>) -> Seq<SnapshotView> {
    v.map_values(|s: InterfaceSnapshot| s@)
}

/// No two snapshots of the list share a name.
pub open spec fn distinct_names(c: Seq<SnapshotView>) -> bool {
    forall|i: int, j: int| 0 <= i < c.len() && 0 <= j < c.len() && i != j ==> c[i].name != c[j].name
}

/// No two tracked interfaces share a name.
pub open spec fn distinct_tracked(t: Seq<TrackedView>) -> bool {
    forall|i: int, j: int|
        0 <= i < t.len() && 0 <= j < t.len() && i != j ==> t[i].snapshot.name != t[j].snapshot.name
}

/// The list holds an interface of that name.
pub open spec fn present(c: Seq<SnapshotView>, name: Seq<char>) -> bool {
    exists|k: int| 0 <= k < c.len() && c[k].name == name
}

/// The tracked list holds an interface of that name.
pub open spec fn tracked_has(t: Seq<TrackedView>, name: Seq<char>) -> bool {
    exists|k: int| 0 <= k < t.len() && t[k].snapshot.name == name
}

/// The tracked interface of that name.
pub open spec fn tracked_lookup(t: Seq<TrackedView>, name: Seq<char>) -> TrackedView {
    t[choose|k: int| 0 <= k < t.len() && t[k].snapshot.name == name]
}

/// The listed interface of that name.
pub open spec fn cur_lookup(c: Seq<SnapshotView>, name: Seq<char>) -> SnapshotView {
    c[choose|k: int| 0 <= k < c.len() && c[k].name == name]
}

pub open spec fn ip_event(u: u128, op: OpView) -> MetricView {
    MetricView::Network { iface_id: u, op }
}

/// `AddIp` of every address, in order.
pub open spec fn addr_events(addrs: Seq<IfAddr>, u: u128) -> Seq<MetricView>
    decreases addrs.len(),
{
    if addrs.len() == 0 {
        Seq::empty()
    } else {
        addr_events(addrs.drop_last(), u).push(ip_event(u, OpView::AddIp(addrs.last().ip)))
    }
}

pub open spec fn mac_added(mac: Option<Seq<char>>, u: u128) -> Seq<MetricView> {
    match mac {
        Some(m) => seq![ip_event(u, OpView::AddMac(m))],
        None => Seq::empty(),
    }
}

pub open spec fn mac_removed(mac: Option<Seq<char>>, u: u128) -> Seq<MetricView> {
    match mac {
        Some(m) => seq![ip_event(u, OpView::RmMac(m))],
        None => Seq::empty(),
    }
}

/// What a newly seen interface is announced with: the interface, then each of its
/// addresses, then its MAC address if it has one.
pub open spec fn new_iface_events(
    s: SnapshotView,
    u: u128,
    ts: ToolstackNetInterface,
) -> Seq<MetricView> {
    seq![
        MetricView::AddIface(
            IfaceView { uuid: u, index: s.index, name: s.name, toolstack_iface: ts },
        ),
    ] + addr_events(s.addr, u) + mac_added(s.mac_addr, u)
}

/// How many interfaces of the list are not tracked yet.
pub open spec fn count_new(t: Seq<TrackedView>, c: Seq<SnapshotView>) -> nat
    decreases c.len(),
{
    if c.len() == 0 {
        0
    } else if tracked_has(t, c.last().name) {
        count_new(t, c.drop_last())
    } else {
        count_new(t, c.drop_last()) + 1
    }
}

/// Announcements of the untracked interfaces of the list, in list order; the n-th of
/// them gets identifier `us[n]` and toolstack identity `ts[n]`.
pub open spec fn new_events(
    t: Seq<TrackedView>,
    c: Seq<SnapshotView>,
    ts: Seq<ToolstackNetInterface>,
    us: Seq<u128>,
) -> Seq<MetricView>
    decreases c.len(),
{
    if c.len() == 0 {
        Seq::empty()
    } else if tracked_has(t, c.last().name) {
        new_events(t, c.drop_last(), ts, us)
    } else {
        let n = count_new(t, c.drop_last()) as int;
        new_events(t, c.drop_last(), ts, us) + new_iface_events(c.last(), us[n], ts[n])
    }
}

/// `RmIface` for each tracked interface missing from the list, in tracking order.
pub open spec fn removed_events(t: Seq<TrackedView>, c: Seq<SnapshotView>) -> Seq<MetricView>
    decreases t.len(),
{
    if t.len() == 0 {
        Seq::empty()
    } else if present(c, t.last().snapshot.name) {
        removed_events(t.drop_last(), c)
    } else {
        removed_events(t.drop_last(), c).push(MetricView::RmIface(t.last().uuid))
    }
}

/// The addresses of `a` that are not in `b`, in order.
pub open spec fn addrs_missing(a: Seq<IfAddr>, b: Seq<IfAddr>) -> Seq<IfAddr>
    decreases a.len(),
{
    if a.len() == 0 {
        Seq::empty()
    } else if b.contains(a.last()) {
        addrs_missing(a.drop_last(), b)
    } else {
        addrs_missing(a.drop_last(), b).push(a.last())
    }
}

/// `RmIp` of every address, in order.
pub open spec fn addr_rm_events(addrs: Seq<IfAddr>, u: u128) -> Seq<MetricView>
    decreases addrs.len(),
{
    if addrs.len() == 0 {
        Seq::empty()
    } else {
        addr_rm_events(addrs.drop_last(), u).push(ip_event(u, OpView::RmIp(addrs.last().ip)))
    }
}

/// What a changed interface is reported with: its new addresses, its vanished
/// addresses, then, if its MAC address changed, the removal of the old one and the
/// addition of the new one.
pub open spec fn changed_iface_events(s: SnapshotView, p: TrackedView) -> Seq<MetricView> {
    addr_events(addrs_missing(s.addr, p.snapshot.addr), p.uuid) + addr_rm_events(
        addrs_missing(p.snapshot.addr, s.addr),
        p.uuid,
    ) + if s.mac_addr != p.snapshot.mac_addr {
        mac_removed(p.snapshot.mac_addr, p.uuid) + mac_added(s.mac_addr, p.uuid)
    } else {
        Seq::empty()
    }
}

/// Change reports of the tracked interfaces of the list that differ from their last
/// snapshot, in list order.
pub open spec fn changed_events(t: Seq<TrackedView>, c: Seq<SnapshotView>) -> Seq<MetricView>
    decreases c.len(),
{
    if c.len() == 0 {
        Seq::empty()
    } else if tracked_has(t, c.last().name) && tracked_lookup(t, c.last().name).snapshot
        != c.last() {
        changed_events(t, c.drop_last()) + changed_iface_events(
            c.last(),
            tracked_lookup(t, c.last().name),
        )
    } else {
        changed_events(t, c.drop_last())
    }
}

/// Every metric that one snapshot gives rise to: announcements, then removals, then
/// changes.
pub open spec fn snapshot_events(
    t: Seq<TrackedView>,
    c: Seq<SnapshotView>,
    ts: Seq<ToolstackNetInterface>,
    us: Seq<u128>,
) -> Seq<MetricView> {
    new_events(t, c, ts, us) + removed_events(t, c) + changed_events(t, c)
}

/// The tracked interfaces that are still listed, with their new snapshot.
pub open spec fn kept(t: Seq<TrackedView>, c: Seq<SnapshotView>) -> Seq<TrackedView>
    decreases t.len(),
{
    if t.len() == 0 {
        Seq::empty()
    } else if present(c, t.last().snapshot.name) {
        kept(t.drop_last(), c).push(
            TrackedView {
                snapshot: cur_lookup(c, t.last().snapshot.name),
                uuid: t.last().uuid,
            },
        )
    } else {
        kept(t.drop_last(), c)
    }
}

/// The listed interfaces that were not tracked, each with its new identifier.
pub open spec fn fresh(t: Seq<TrackedView>, c: Seq<SnapshotView>, us: Seq<u128>) -> Seq<
    TrackedView,
>
    decreases c.len(),
{
    if c.len() == 0 {
        Seq::empty()
    } else if tracked_has(t, c.last().name) {
        fresh(t, c.drop_last(), us)
    } else {
        fresh(t, c.drop_last(), us).push(
            TrackedView { snapshot: c.last(), uuid: us[count_new(t, c.drop_last()) as int] },
        )
    }
}

/// What is tracked after a snapshot.
pub open spec fn next_tracked(t: Seq<TrackedView>, c: Seq<SnapshotView>, us: Seq<u128>) -> Seq<
    TrackedView,
> {
    kept(t, c) + fresh(t, c, us)
}


proof fn lemma_tracked_lookup(t: Seq<TrackedView>, k: int)
    requires
        distinct_tracked(t),
        0 <= k < t.len(),
    ensures
        tracked_has(t, t[k].snapshot.name),
        tracked_lookup(t, t[k].snapshot.name) == t[k],
{
    let name = t[k].snapshot.name;
    assert(t[k].snapshot.name == name);
    let j = choose|j: int| 0 <= j < t.len() && t[j].snapshot.name == name;
    assert(j == k);
}

proof fn lemma_cur_lookup(c: Seq<SnapshotView>, k: int)
    requires
        distinct_names(c),
        0 <= k < c.len(),
    ensures
        present(c, c[k].name),
        cur_lookup(c, c[k].name) == c[k],
{
    let name = c[k].name;
    assert(c[k].name == name);
    let j = choose|j: int| 0 <= j < c.len() && c[j].name == name;
    assert(j == k);
}

proof fn lemma_cur_lookup_name(c: Seq<SnapshotView>, name: Seq<char>)
    requires
        present(c, name),
    ensures
        cur_lookup(c, name).name == name,
{
}

proof fn lemma_tracked_prefix(t: Seq<TrackedView>, n: Seq<char>)
    requires
        t.len() > 0,
    ensures
        tracked_has(t, n) <==> (tracked_has(t.drop_last(), n) || t.last().snapshot.name == n),
{
    if tracked_has(t, n) {
        let k = choose|k: int| 0 <= k < t.len() && t[k].snapshot.name == n;
        if k < t.len() - 1 {
            assert(t.drop_last()[k] == t[k]);
        }
    }
    if tracked_has(t.drop_last(), n) {
        let k = choose|k: int| 0 <= k < t.drop_last().len() && t.drop_last()[k].snapshot.name == n;
        assert(t[k] == t.drop_last()[k]);
    }
    if t.last().snapshot.name == n {
        assert(t[t.len() - 1].snapshot.name == n);
    }
}

proof fn lemma_present_prefix(c: Seq<SnapshotView>, n: Seq<char>)
    requires
        c.len() > 0,
    ensures
        present(c, n) <==> (present(c.drop_last(), n) || c.last().name == n),
{
    if present(c, n) {
        let k = choose|k: int| 0 <= k < c.len() && c[k].name == n;
        if k < c.len() - 1 {
            assert(c.drop_last()[k] == c[k]);
        }
    }
    if present(c.drop_last(), n) {
        let k = choose|k: int| 0 <= k < c.drop_last().len() && c.drop_last()[k].name == n;
        assert(c[k] == c.drop_last()[k]);
    }
    if c.last().name == n {
        assert(c[c.len() - 1].name == n);
    }
}

/// What the tracked interfaces that are kept look like.
proof fn lemma_kept(t: Seq<TrackedView>, c: Seq<SnapshotView>)
    requires
        distinct_tracked(t),
    ensures
        distinct_tracked(kept(t, c)),
        forall|n: Seq<char>|
            #![trigger tracked_has(kept(t, c), n)]
            tracked_has(kept(t, c), n) <==> (tracked_has(t, n) && present(c, n)),
        forall|i: int|
            #![trigger kept(t, c)[i]]
            0 <= i < kept(t, c).len() ==> {
                let x = kept(t, c)[i];
                &&& present(c, x.snapshot.name)
                &&& x.snapshot == cur_lookup(c, x.snapshot.name)
                &&& tracked_has(t, x.snapshot.name)
                &&& x.uuid == tracked_lookup(t, x.snapshot.name).uuid
            },
    decreases t.len(),
{
    if t.len() > 0 {
        let tp = t.drop_last();
        assert(distinct_tracked(tp)) by {
            assert forall|i: int, j: int|
                0 <= i < tp.len() && 0 <= j < tp.len() && i != j implies tp[i].snapshot.name
                != tp[j].snapshot.name by {
                assert(tp[i] == t[i] && tp[j] == t[j]);
            }
        }
        lemma_kept(tp, c);
        lemma_tracked_lookup(t, t.len() - 1);
        let last = t.last();
        let kp = kept(tp, c);
        assert(!tracked_has(tp, last.snapshot.name)) by {
            if tracked_has(tp, last.snapshot.name) {
                let k = choose|k: int| 0 <= k < tp.len() && tp[k].snapshot.name == last.snapshot.name;
                assert(t[k] == tp[k]);
                assert(t[t.len() - 1] == last);
            }
        }
        assert forall|i: int| 0 <= i < kp.len() implies tracked_lookup(t, #[trigger] kp[i].snapshot.name)
            == tracked_lookup(tp, kp[i].snapshot.name) by {
            let n = kp[i].snapshot.name;
            let k = choose|k: int| 0 <= k < tp.len() && tp[k].snapshot.name == n;
            assert(tp[k] == t[k]);
            lemma_tracked_lookup(tp, k);
            lemma_tracked_lookup(t, k);
        }
        assert forall|n: Seq<char>| tracked_has(t, n) <==> (tracked_has(tp, n) || last.snapshot.name == n) by {
            lemma_tracked_prefix(t, n);
        }
        if present(c, last.snapshot.name) {
            let x = TrackedView { snapshot: cur_lookup(c, last.snapshot.name), uuid: last.uuid };
            let kt = kept(t, c);
            assert(kt == kp.push(x));
            lemma_cur_lookup_name(c, last.snapshot.name);
            assert forall|n: Seq<char>| tracked_has(kt, n) <==> (tracked_has(kp, n) || x.snapshot.name == n) by {
                lemma_tracked_prefix(kt, n);
                assert(kt.drop_last() == kp);
            }
            assert forall|i: int| 0 <= i < kt.len() implies {
                let y = #[trigger] kt[i];
                &&& present(c, y.snapshot.name)
                &&& y.snapshot == cur_lookup(c, y.snapshot.name)
                &&& tracked_has(t, y.snapshot.name)
                &&& y.uuid == tracked_lookup(t, y.snapshot.name).uuid
            } by {
                if i < kp.len() {
                    assert(kt[i] == kp[i]);
                } else {
                    assert(kt[i] == x);
                }
            }
            assert forall|i: int, j: int|
                0 <= i < kt.len() && 0 <= j < kt.len() && i != j implies kt[i].snapshot.name
                != kt[j].snapshot.name by {
                if i < kp.len() && j < kp.len() {
                    assert(kt[i] == kp[i] && kt[j] == kp[j]);
                } else if i < kp.len() {
                    assert(kt[i] == kp[i]);
                    assert(tracked_has(tp, kp[i].snapshot.name));
                } else {
                    assert(kt[j] == kp[j]);
                    assert(tracked_has(tp, kp[j].snapshot.name));
                }
            }
        } else {
            assert forall|n: Seq<char>| #[trigger] tracked_has(kept(t, c), n) <==> (tracked_has(t, n) && present(c, n)) by {
            }
        }
    }
}

/// What the newly tracked interfaces look like.
proof fn lemma_fresh(t: Seq<TrackedView>, c: Seq<SnapshotView>, us: Seq<u128>)
    requires
        distinct_names(c),
    ensures
        fresh(t, c, us).len() == count_new(t, c),
        distinct_tracked(fresh(t, c, us)),
        forall|n: Seq<char>|
            #![trigger tracked_has(fresh(t, c, us), n)]
            tracked_has(fresh(t, c, us), n) <==> (present(c, n) && !tracked_has(t, n)),
        forall|i: int|
            #![trigger fresh(t, c, us)[i]]
            0 <= i < fresh(t, c, us).len() ==> {
                let x = fresh(t, c, us)[i];
                &&& present(c, x.snapshot.name)
                &&& x.snapshot == cur_lookup(c, x.snapshot.name)
                &&& !tracked_has(t, x.snapshot.name)
                &&& x.uuid == us[i]
            },
    decreases c.len(),
{
    if c.len() > 0 {
        let cp = c.drop_last();
        assert(distinct_names(cp)) by {
            assert forall|i: int, j: int|
                0 <= i < cp.len() && 0 <= j < cp.len() && i != j implies cp[i].name != cp[j].name by {
                assert(cp[i] == c[i] && cp[j] == c[j]);
            }
        }
        lemma_fresh(t, cp, us);
        lemma_cur_lookup(c, c.len() - 1);
        let last = c.last();
        let fp = fresh(t, cp, us);
        assert(!present(cp, last.name)) by {
            if present(cp, last.name) {
                let k = choose|k: int| 0 <= k < cp.len() && cp[k].name == last.name;
                assert(c[k] == cp[k]);
                assert(c[c.len() - 1] == last);
            }
        }
        assert forall|n: Seq<char>| present(cp, n) implies cur_lookup(c, n) == cur_lookup(cp, n) by {
            if present(cp, n) {
                let k = choose|k: int| 0 <= k < cp.len() && cp[k].name == n;
                assert(cp[k] == c[k]);
                lemma_cur_lookup(cp, k);
                lemma_cur_lookup(c, k);
            }
        }
        assert forall|n: Seq<char>| present(c, n) <==> (present(cp, n) || last.name == n) by {
            lemma_present_prefix(c, n);
        }
        if !tracked_has(t, last.name) {
            let x = TrackedView { snapshot: last, uuid: us[count_new(t, cp) as int] };
            let ft = fresh(t, c, us);
            assert(ft == fp.push(x));
            assert forall|n: Seq<char>| tracked_has(ft, n) <==> (tracked_has(fp, n) || x.snapshot.name == n) by {
                lemma_tracked_prefix(ft, n);
                assert(ft.drop_last() == fp);
            }
            assert forall|i: int| 0 <= i < ft.len() implies {
                let y = #[trigger] ft[i];
                &&& present(c, y.snapshot.name)
                &&& y.snapshot == cur_lookup(c, y.snapshot.name)
                &&& !tracked_has(t, y.snapshot.name)
                &&& y.uuid == us[i]
            } by {
                if i < fp.len() {
                    assert(ft[i] == fp[i]);
                } else {
                    assert(ft[i] == x);
                }
            }
            assert forall|i: int, j: int|
                0 <= i < ft.len() && 0 <= j < ft.len() && i != j implies ft[i].snapshot.name
                != ft[j].snapshot.name by {
                if i < fp.len() && j < fp.len() {
                    assert(ft[i] == fp[i] && ft[j] == fp[j]);
                } else if i < fp.len() {
                    assert(ft[i] == fp[i]);
                    assert(present(cp, fp[i].snapshot.name));
                } else {
                    assert(ft[j] == fp[j]);
                    assert(present(cp, fp[j].snapshot.name));
                }
            }
        } else {
            assert forall|n: Seq<char>| #[trigger] tracked_has(fresh(t, c, us), n) <==> (present(c, n) && !tracked_has(t, n)) by {
            }
        }
    }
}


proof fn lemma_count_new_prefix(t: Seq<TrackedView>, c: Seq<SnapshotView>, i: int)
    requires
        0 <= i <= c.len(),
    ensures
        count_new(t, c.take(i)) <= count_new(t, c),
    decreases c.len() - i,
{
    if i < c.len() {
        lemma_count_new_prefix(t, c, i + 1);
        assert(c.take(i + 1).drop_last() =~= c.take(i));
    } else {
        assert(c.take(i) =~= c);
    }
}

struct Known {
    snapshot: InterfaceSnapshot,
    uuid: u128,
}

impl View for Known {
    type V = TrackedView;

    closed spec fn view(&self) -> TrackedView {
        TrackedView { snapshot: self.snapshot@, uuid: self.uuid }
    }
}

spec fn tracked_view(v: Seq<Known>) -> Seq<TrackedView> {
    v.map_values(|x: Known| x@)
}

/// Appends one metric.
pub fn push_metric(events: &mut Vec<GuestMetric>, m: GuestMetric)
    ensures
        metrics_view(final(events)@) == metrics_view(old(events)@).push(m@),
{
    let ghost mv = m@;
    events.push(m);
    assert(metrics_view(events@) =~= metrics_view(old(events)@).push(mv));
}

/// Appends `AddIp` of each address.
fn push_addr_events(events: &mut Vec<GuestMetric>, addrs: &Vec<IfAddr>, u: u128)
    ensures
        metrics_view(final(events)@) == metrics_view(old(events)@) + addr_events(addrs@, u),
{
    let mut k: usize = 0;
    while k < addrs.len()
        invariant
            k <= addrs.len(),
            metrics_view(events@) == metrics_view(old(events)@) + addr_events(addrs@.take(k as int), u),
        decreases addrs.len() - k,
    {
        push_metric(events, GuestMetric::Network(NetEvent { iface_id: u, op: NetEventOp::AddIp(addrs[k].ip) }));
        assert(addrs@.take(k + 1).drop_last() =~= addrs@.take(k as int));
        k = k + 1;
    }
    assert(addrs@.take(addrs.len() as int) =~= addrs@);
}

/// Appends `AddIp` (or `RmIp` when `removal`) of each address of `a` missing from `b`.
fn push_missing_events(
    events: &mut Vec<GuestMetric>,
    a: &Vec<IfAddr>,
    b: &Vec<IfAddr>,
    u: u128,
    removal: bool,
)
    ensures
        metrics_view(final(events)@) == metrics_view(old(events)@) + if removal {
            addr_rm_events(addrs_missing(a@, b@), u)
        } else {
            addr_events(addrs_missing(a@, b@), u)
        },
{
    let mut k: usize = 0;
    while k < a.len()
        invariant
            k <= a.len(),
            metrics_view(events@) == metrics_view(old(events)@) + if removal {
                addr_rm_events(addrs_missing(a@.take(k as int), b@), u)
            } else {
                addr_events(addrs_missing(a@.take(k as int), b@), u)
            },
        decreases a.len() - k,
    {
        let x = a[k];
        let ghost before = addrs_missing(a@.take(k as int), b@);
        assert(a@.take(k + 1).drop_last() =~= a@.take(k as int));
        if !addr_contains(b, x) {
            let op = if removal { NetEventOp::RmIp(x.ip) } else { NetEventOp::AddIp(x.ip) };
            push_metric(events, GuestMetric::Network(NetEvent { iface_id: u, op }));
            assert(addrs_missing(a@.take(k + 1), b@) == before.push(x));
            assert(before.push(x).drop_last() =~= before);
        }
        k = k + 1;
    }
    assert(a@.take(a.len() as int) =~= a@);
}

fn push_mac_event(events: &mut Vec<GuestMetric>, mac: &Option<String>, u: u128, removal: bool)
    ensures
        metrics_view(final(events)@) == metrics_view(old(events)@) + if removal {
            mac_removed(opt_string_view(*mac), u)
        } else {
            mac_added(opt_string_view(*mac), u)
        },
{
    match mac {
        Some(m) => {
            let op = if removal { NetEventOp::RmMac(m.clone()) } else { NetEventOp::AddMac(m.clone()) };
            push_metric(events, GuestMetric::Network(NetEvent { iface_id: u, op }));
        },
        None => {
            assert(metrics_view(events@) =~= metrics_view(old(events)@) + Seq::<MetricView>::empty());
        },
    }
}

fn push_new_iface_events(
    events: &mut Vec<GuestMetric>,
    s: &InterfaceSnapshot,
    u: u128,
    ts: ToolstackNetInterface,
)
    ensures
        metrics_view(final(events)@) == metrics_view(old(events)@) + new_iface_events(s@, u, ts),
{
    push_metric(
        events,
        GuestMetric::AddIface(
            NetInterface { uuid: u, index: s.index, name: s.name.clone(), toolstack_iface: ts },
        ),
    );
    push_addr_events(events, &s.addr, u);
    push_mac_event(events, &s.mac_addr, u, false);
    assert(metrics_view(events@) =~= metrics_view(old(events)@) + new_iface_events(s@, u, ts));
}

fn same_mac(a: &Option<String>, b: &Option<String>) -> (r: bool)
    ensures
        r == (opt_string_view(*a) == opt_string_view(*b)),
{
    match (a, b) {
        (Some(x), Some(y)) => *x == *y,
        (None, None) => true,
        _ => false,
    }
}

fn push_changed_iface_events(events: &mut Vec<GuestMetric>, s: &InterfaceSnapshot, p: &Known)
    ensures
        metrics_view(final(events)@) == metrics_view(old(events)@) + changed_iface_events(s@, p@),
{
    push_missing_events(events, &s.addr, &p.snapshot.addr, p.uuid, false);
    push_missing_events(events, &p.snapshot.addr, &s.addr, p.uuid, true);
    if !same_mac(&s.mac_addr, &p.snapshot.mac_addr) {
        push_mac_event(events, &p.snapshot.mac_addr, p.uuid, true);
        push_mac_event(events, &s.mac_addr, p.uuid, false);
    }
    assert(metrics_view(events@) =~= metrics_view(old(events)@) + changed_iface_events(s@, p@));
}

/// Finds the snapshot of the given name in a list.
pub fn find_snapshot(current: &Vec<InterfaceSnapshot>, name: &String) -> (r: Option<usize>)
    ensures
        match r {
            Some(k) => k < current.len() && current@[k as int].name@ == name@,
            None => !present(snaps(current@), name@),
        },
{
    let mut i: usize = 0;
    while i < current.len()
        invariant
            i <= current.len(),
            forall|k: int| 0 <= k < i ==> current@[k].name@ != name@,
        decreases current.len() - i,
    {
        if current[i].name == *name {
            return Some(i);
        }
        i = i + 1;
    }
    proof {
        if present(snaps(current@), name@) {
            let k = choose|k: int| 0 <= k < snaps(current@).len() && snaps(current@)[k].name == name@;
            assert(snaps(current@)[k] == current@[k]@);
        }
    }
    None
}

/// Network interface tracking by snapshots.
pub struct SimpleNetworkPlugin {
    known: Vec<Known>,
}

impl View for SimpleNetworkPlugin {
    type V = Seq<TrackedView>;

    closed spec fn view(&self) -> Seq<TrackedView> {
        tracked_view(self.known@)
    }
}

impl SimpleNetworkPlugin {
    /// Well-formedness: no two tracked interfaces share a name.
    pub open spec fn wf(&self) -> bool {
        distinct_tracked(self@)
    }

    /// A plugin that tracks nothing yet.
    pub fn new() -> (r: SimpleNetworkPlugin)
        ensures
            r@ == Seq::<TrackedView>::empty(),
            r.wf(),
    {
        let r = SimpleNetworkPlugin { known: Vec::new() };
        assert(r@ =~= Seq::<TrackedView>::empty());
        r
    }

    /// Forgets every tracked interface, so that the next snapshot announces them all again.
    pub fn flush(&mut self)
        ensures
            final(self)@ == Seq::<TrackedView>::empty(),
            final(self).wf(),
    {
        self.known = Vec::new();
        assert(self@ =~= Seq::<TrackedView>::empty());
    }

    fn find_tracked(&self, name: &String) -> (r: Option<usize>)
        ensures
            match r {
                Some(k) => k < self@.len() && self@[k as int].snapshot.name == name@,
                None => !tracked_has(self@, name@),
            },
    {
        let mut i: usize = 0;
        while i < self.known.len()
            invariant
                i <= self.known.len(),
                forall|k: int| 0 <= k < i ==> self.known@[k].snapshot.name@ != name@,
            decreases self.known.len() - i,
        {
            if self.known[i].snapshot.name == *name {
                assert(self@[i as int] == self.known@[i as int]@);
                return Some(i);
            }
            i = i + 1;
        }
        proof {
            if tracked_has(self@, name@) {
                let k = choose|k: int| 0 <= k < self@.len() && self@[k].snapshot.name == name@;
                assert(self@[k] == self.known@[k]@);
            }
        }
        None
    }

    /// Positions, in the list, of the interfaces that are not tracked yet (those that the
    /// next snapshot announces, in that order).
    pub fn new_interfaces(&self, current: &Vec<InterfaceSnapshot>) -> (r: Vec<usize>)
        ensures
            r.len() == count_new(self@, snaps(current@)),
            forall|n: int| 0 <= n < r.len() ==> r@[n] < current.len() && !tracked_has(self@, current@[r@[n] as int].name@),
            forall|n: int, m: int| 0 <= n < m < r.len() ==> r@[n] < r@[m],
    {
        let ghost c = snaps(current@);
        let mut r: Vec<usize> = Vec::new();
        let mut i: usize = 0;
        while i < current.len()
            invariant
                i <= current.len(),
                c == snaps(current@),
                r.len() == count_new(self@, c.take(i as int)),
                forall|n: int| 0 <= n < r.len() ==> r@[n] < i && !tracked_has(self@, current@[r@[n] as int].name@),
                forall|n: int, m: int| 0 <= n < m < r.len() ==> r@[n] < r@[m],
            decreases current.len() - i,
        {
            assert(c.take(i + 1).drop_last() =~= c.take(i as int));
            assert(c.take(i + 1).last() == current@[i as int]@);
            if self.find_tracked(&current[i].name).is_none() {
                r.push(i);
            }
            i = i + 1;
        }
        assert(c.take(current.len() as int) =~= c);
        r
    }

    /// Takes a new snapshot of the interfaces into account and returns, in order, the
    /// announcements of the untracked interfaces (the n-th one gets identifier
    /// `uuids[n]` and toolstack identity `toolstack[n]`), the removal of the tracked
    /// interfaces that vanished, and the changes of those that differ from their last
    /// snapshot.
    pub fn apply_snapshot(
        &mut self,
        current: &Vec<InterfaceSnapshot>,
        toolstack: &Vec<ToolstackNetInterface>,
        uuids: &Vec<u128>,
    ) -> (events: Vec<GuestMetric>)
        requires
            old(self).wf(),
            distinct_names(snaps(current@)),
            toolstack.len() == count_new(old(self)@, snaps(current@)),
            uuids.len() == count_new(old(self)@, snaps(current@)),
        ensures
            final(self).wf(),
            metrics_view(events@) == snapshot_events(
                old(self)@,
                snaps(current@),
                toolstack@,
                uuids@,
            ),
            final(self)@ == next_tracked(old(self)@, snaps(current@), uuids@),
    {
        let ghost t = self@;
        let ghost c = snaps(current@);
        let mut events: Vec<GuestMetric> = Vec::new();
        let mut fresh_v: Vec<Known> = Vec::new();
        let mut j: usize = 0;
        let mut i: usize = 0;
        assert(metrics_view(events@) =~= Seq::<MetricView>::empty());
        while i < current.len()
            invariant
                t == self@,
                c == snaps(current@),
                i <= current.len(),
                toolstack.len() == count_new(t, c),
                uuids.len() == count_new(t, c),
                j == count_new(t, c.take(i as int)),
                metrics_view(events@) == new_events(t, c.take(i as int), toolstack@, uuids@),
                tracked_view(fresh_v@) == fresh(t, c.take(i as int), uuids@),
            decreases current.len() - i,
        {
            assert(c.take(i + 1).drop_last() =~= c.take(i as int));
            assert(c.take(i + 1).last() == current@[i as int]@);
            proof {
                lemma_count_new_prefix(t, c, i + 1);
            }
            if self.find_tracked(&current[i].name).is_none() {
                push_new_iface_events(&mut events, &current[i], uuids[j], toolstack[j]);
                let k = Known { snapshot: current[i].duplicate(), uuid: uuids[j] };
                let ghost before = fresh_v@;
                fresh_v.push(k);
                assert(tracked_view(fresh_v@) =~= tracked_view(before).push(k@));
                j = j + 1;
            }
            i = i + 1;
        }
        assert(c.take(current.len() as int) =~= c);
        let ghost ev1 = metrics_view(events@);
        let mut kept_v: Vec<Known> = Vec::new();
        let mut k: usize = 0;
        assert(t.take(0) =~= Seq::<TrackedView>::empty());
        assert(tracked_view(kept_v@) =~= Seq::<TrackedView>::empty());
        assert(ev1 =~= ev1 + Seq::<MetricView>::empty());
        while k < self.known.len()
            invariant
                t == self@,
                c == snaps(current@),
                distinct_tracked(t),
                distinct_names(c),
                k <= self.known.len(),
                metrics_view(events@) == ev1 + removed_events(t.take(k as int), c),
                tracked_view(kept_v@) == kept(t.take(k as int), c),
            decreases self.known.len() - k,
        {
            assert(t.take(k + 1).drop_last() =~= t.take(k as int));
            assert(t.take(k + 1).last() == self.known@[k as int]@);
            assert(t[k as int] == self.known@[k as int]@);
            let uuid = self.known[k].uuid;
            match find_snapshot(current, &self.known[k].snapshot.name) {
                Some(ci) => {
                    proof {
                        assert(c[ci as int] == current@[ci as int]@);
                        lemma_cur_lookup(c, ci as int);
                    }
                    let kk = Known { snapshot: current[ci].duplicate(), uuid };
                    let ghost before = kept_v@;
                    kept_v.push(kk);
                    assert(tracked_view(kept_v@) =~= tracked_view(before).push(kk@));
                },
                None => {
                    let ghost before = metrics_view(events@);
                    push_metric(&mut events, GuestMetric::RmIface(uuid));
                    assert(ev1 + removed_events(t.take(k + 1), c) =~= (ev1 + removed_events(t.take(k as int), c)).push(MetricView::RmIface(uuid)));
                },
            }
            k = k + 1;
        }
        assert(t.take(self.known.len() as int) =~= t);
        let ghost ev2 = metrics_view(events@);
        i = 0;
        assert(ev2 =~= ev2 + Seq::<MetricView>::empty());
        while i < current.len()
            invariant
                t == self@,
                c == snaps(current@),
                distinct_tracked(t),
                i <= current.len(),
                metrics_view(events@) == ev2 + changed_events(t, c.take(i as int)),
            decreases current.len() - i,
        {
            assert(c.take(i + 1).drop_last() =~= c.take(i as int));
            assert(c.take(i + 1).last() == current@[i as int]@);
            match self.find_tracked(&current[i].name) {
                Some(kx) => {
                    proof {
                        assert(t[kx as int] == self.known@[kx as int]@);
                        lemma_tracked_lookup(t, kx as int);
                    }
                    if !current[i].same_as(&self.known[kx].snapshot) {
                        push_changed_iface_events(&mut events, &current[i], &self.known[kx]);
                        assert(ev2 + changed_events(t, c.take(i + 1)) =~= ev2 + changed_events(t, c.take(i as int)) + changed_iface_events(current@[i as int]@, self.known@[kx as int]@));
                    }
                },
                None => {},
            }
            i = i + 1;
        }
        assert(c.take(current.len() as int) =~= c);
        assert(metrics_view(events@) =~= snapshot_events(t, c, toolstack@, uuids@));
        let ghost kv = tracked_view(kept_v@);
        let ghost fv = tracked_view(fresh_v@);
        kept_v.append(&mut fresh_v);
        self.known = kept_v;
        proof {
            assert(self@ =~= kv + fv);
            lemma_kept(t, c);
            lemma_fresh(t, c, uuids@);
            let n = next_tracked(t, c, uuids@);
            assert forall|a: int, b: int| 0 <= a < n.len() && 0 <= b < n.len() && a != b implies n[a].snapshot.name != n[b].snapshot.name by {
                if a < kv.len() && b < kv.len() {
                    assert(n[a] == kv[a] && n[b] == kv[b]);
                } else if a >= kv.len() && b >= kv.len() {
                    assert(n[a] == fv[a - kv.len()] && n[b] == fv[b - kv.len()]);
                } else if a < kv.len() {
                    assert(n[a] == kv[a] && n[b] == fv[b - kv.len()]);
                } else {
                    assert(n[b] == kv[b] && n[a] == fv[a - kv.len()]);
                }
            }
        }
        events
    }

    /// Takes a new snapshot into account, giving each newly seen interface a freshly drawn
    /// random (version 4) identifier: the result is that of `apply_snapshot` for some
    /// such identifiers.
    pub fn track_interfaces(
        &mut self,
        current: &Vec<InterfaceSnapshot>,
        toolstack: &Vec<ToolstackNetInterface>,
    ) -> (events: Vec<GuestMetric>)
        requires
            old(self).wf(),
            distinct_names(snaps(current@)),
            toolstack.len() == count_new(old(self)@, snaps(current@)),
        ensures
            final(self).wf(),
            exists|us: Seq<u128>|
                {
                    &&& us.len() == count_new(old(self)@, snaps(current@))
                    &&& forall|n: int| 0 <= n < us.len() ==> is_v4_uuid(#[trigger] us[n])
                    &&& metrics_view(events@) == snapshot_events(
                        old(self)@,
                        snaps(current@),
                        toolstack@,
                        us,
                    )
                    &&& final(self)@ == next_tracked(old(self)@, snaps(current@), us)
                },
    {
        let mut uuids: Vec<u128> = Vec::new();
        while uuids.len() < toolstack.len()
            invariant
                uuids.len() <= toolstack.len(),
                forall|n: int| 0 <= n < uuids.len() ==> is_v4_uuid(#[trigger] uuids@[n]),
            decreases toolstack.len() - uuids.len(),
        {
            uuids.push(new_uuid());
        }
        self.apply_snapshot(current, toolstack, &uuids)
    }
}

/// A random (version 4) UUID: its version field reads 4 and its variant field reads
/// binary 10.
pub open spec fn is_v4_uuid(u: u128) -> bool {
    &&& (u / 0x1000_0000_0000_0000_0000) % 16 == 4
    &&& (u / 0x4000_0000_0000_0000) % 4 == 2
}

/// `uuid::Uuid::new_v4`: a random identifier, as its 128-bit value; its version field
/// reads 4 and its variant field reads binary 10, the rest is random.
#[verifier::external_body]
pub(crate) fn new_uuid() -> (u: u128)
    ensures
        is_v4_uuid(u),
{
    uuid::Uuid::new_v4().as_u128()
}

proof fn lemma_tracked_concat(a: Seq<TrackedView>, b: Seq<TrackedView>, n: Seq<char>)
    ensures
        tracked_has(a + b, n) <==> (tracked_has(a, n) || tracked_has(b, n)),
{
    if tracked_has(a + b, n) {
        let k = choose|k: int| 0 <= k < (a + b).len() && (a + b)[k].snapshot.name == n;
        if k < a.len() {
            assert((a + b)[k] == a[k]);
        } else {
            assert((a + b)[k] == b[k - a.len()]);
        }
    }
    if tracked_has(a, n) {
        let k = choose|k: int| 0 <= k < a.len() && a[k].snapshot.name == n;
        assert((a + b)[k] == a[k]);
    }
    if tracked_has(b, n) {
        let k = choose|k: int| 0 <= k < b.len() && b[k].snapshot.name == n;
        assert((a + b)[k + a.len()] == b[k]);
    }
}

/// After a snapshot, the interfaces tracked are exactly those of the snapshot, each with
/// its snapshot, and an interface that was already tracked keeps its identifier.
pub proof fn lemma_snapshot_tracks_current(
    t: Seq<TrackedView>,
    c: Seq<SnapshotView>,
    us: Seq<u128>,
    n: Seq<char>,
)
    requires
        distinct_tracked(t),
        distinct_names(c),
    ensures
        distinct_tracked(next_tracked(t, c, us)),
        tracked_has(next_tracked(t, c, us), n) <==> present(c, n),
        present(c, n) ==> tracked_lookup(next_tracked(t, c, us), n).snapshot == cur_lookup(c, n),
        present(c, n) && tracked_has(t, n) ==> tracked_lookup(next_tracked(t, c, us), n).uuid
            == tracked_lookup(t, n).uuid,
{
    lemma_kept(t, c);
    lemma_fresh(t, c, us);
    let kv = kept(t, c);
    let fv = fresh(t, c, us);
    let nx = next_tracked(t, c, us);
    assert forall|a: int, b: int| 0 <= a < nx.len() && 0 <= b < nx.len() && a != b implies nx[a].snapshot.name != nx[b].snapshot.name by {
        if a < kv.len() && b < kv.len() {
            assert(nx[a] == kv[a] && nx[b] == kv[b]);
        } else if a >= kv.len() && b >= kv.len() {
            assert(nx[a] == fv[a - kv.len()] && nx[b] == fv[b - kv.len()]);
        } else if a < kv.len() {
            assert(nx[a] == kv[a] && nx[b] == fv[b - kv.len()]);
        } else {
            assert(nx[b] == kv[b] && nx[a] == fv[a - kv.len()]);
        }
    }
    lemma_tracked_concat(kv, fv, n);
    assert(tracked_has(kv, n) ==> tracked_has(t, n) && present(c, n));
    assert(tracked_has(fv, n) ==> present(c, n) && !tracked_has(t, n));
    if present(c, n) {
        let k = choose|k: int| 0 <= k < nx.len() && nx[k].snapshot.name == n;
        if k < kv.len() {
            assert(nx[k] == kv[k]);
        } else {
            assert(nx[k] == fv[k - kv.len()]);
            assert(fv[k - kv.len()].snapshot.name == n);
        }
    }
}

proof fn lemma_all_known_quiet(t: Seq<TrackedView>, c: Seq<SnapshotView>, ts: Seq<ToolstackNetInterface>, us: Seq<u128>)
    requires
        forall|i: int| 0 <= i < c.len() ==> tracked_has(t, #[trigger] c[i].name) && tracked_lookup(t, c[i].name).snapshot == c[i],
    ensures
        count_new(t, c) == 0,
        new_events(t, c, ts, us) == Seq::<MetricView>::empty(),
        changed_events(t, c) == Seq::<MetricView>::empty(),
    decreases c.len(),
{
    if c.len() > 0 {
        let cp = c.drop_last();
        assert forall|i: int| 0 <= i < cp.len() implies tracked_has(t, #[trigger] cp[i].name) && tracked_lookup(t, cp[i].name).snapshot == cp[i] by {
            assert(cp[i] == c[i]);
        }
        lemma_all_known_quiet(t, cp, ts, us);
        assert(c.last() == c[c.len() - 1]);
    }
}

proof fn lemma_all_present_quiet(t: Seq<TrackedView>, c: Seq<SnapshotView>)
    requires
        forall|i: int| 0 <= i < t.len() ==> present(c, #[trigger] t[i].snapshot.name),
    ensures
        removed_events(t, c) == Seq::<MetricView>::empty(),
    decreases t.len(),
{
    if t.len() > 0 {
        let tp = t.drop_last();
        assert forall|i: int| 0 <= i < tp.len() implies present(c, #[trigger] tp[i].snapshot.name) by {
            assert(tp[i] == t[i]);
        }
        lemma_all_present_quiet(tp, c);
        assert(t.last() == t[t.len() - 1]);
    }
}

/// Taking the same snapshot twice in a row: the second time nothing is new and nothing
/// is reported.
pub proof fn lemma_same_snapshot_quiet(
    t: Seq<TrackedView>,
    c: Seq<SnapshotView>,
    us: Seq<u128>,
    ts2: Seq<ToolstackNetInterface>,
    us2: Seq<u128>,
)
    requires
        distinct_tracked(t),
        distinct_names(c),
    ensures
        count_new(next_tracked(t, c, us), c) == 0,
        snapshot_events(next_tracked(t, c, us), c, ts2, us2) == Seq::<MetricView>::empty(),
{
    let nx = next_tracked(t, c, us);
    assert forall|i: int| 0 <= i < c.len() implies tracked_has(nx, #[trigger] c[i].name) && tracked_lookup(nx, c[i].name).snapshot == c[i] by {
        lemma_snapshot_tracks_current(t, c, us, c[i].name);
        lemma_cur_lookup(c, i);
    }
    assert forall|i: int| 0 <= i < nx.len() implies present(c, #[trigger] nx[i].snapshot.name) by {
        lemma_snapshot_tracks_current(t, c, us, nx[i].snapshot.name);
        assert(nx[i].snapshot.name == nx[i].snapshot.name);
        assert(tracked_has(nx, nx[i].snapshot.name));
    }
    lemma_all_known_quiet(nx, c, ts2, us2);
    lemma_all_present_quiet(nx, c);
    assert(snapshot_events(nx, c, ts2, us2) =~= Seq::<MetricView>::empty());
}

/// After `flush`, every interface of a snapshot is announced anew, and nothing is reported
/// removed or changed: the metrics are the announcements alone.
pub proof fn lemma_flush_announces_all(
    c: Seq<SnapshotView>,
    ts: Seq<ToolstackNetInterface>,
    us: Seq<u128>,
)
    ensures
        count_new(Seq::<TrackedView>::empty(), c) == c.len(),
        removed_events(Seq::<TrackedView>::empty(), c) == Seq::<MetricView>::empty(),
        changed_events(Seq::<TrackedView>::empty(), c) == Seq::<MetricView>::empty(),
        snapshot_events(Seq::<TrackedView>::empty(), c, ts, us) == new_events(
            Seq::<TrackedView>::empty(),
            c,
            ts,
            us,
        ),
    decreases c.len(),
{
    if c.len() > 0 {
        lemma_flush_announces_all(c.drop_last(), ts, us);
    }
    let e = Seq::<MetricView>::empty();
    assert(new_events(Seq::<TrackedView>::empty(), c, ts, us) + e + e =~= new_events(
        Seq::<TrackedView>::empty(),
        c,
        ts,
        us,
    ));
}


proof fn lemma_all_tracked_no_new(
    t: Seq<TrackedView>,
    c: Seq<SnapshotView>,
    ts: Seq<ToolstackNetInterface>,
    us: Seq<u128>,
)
    requires
        forall|i: int| 0 <= i < c.len() ==> tracked_has(t, #[trigger] c[i].name),
    ensures
        count_new(t, c) == 0,
        new_events(t, c, ts, us) == Seq::<MetricView>::empty(),
    decreases c.len(),
{
    if c.len() > 0 {
        let cp = c.drop_last();
        assert forall|i: int| 0 <= i < cp.len() implies tracked_has(t, #[trigger] cp[i].name) by {
            assert(cp[i] == c[i]);
        }
        lemma_all_tracked_no_new(t, cp, ts, us);
        assert(c.last() == c[c.len() - 1]);
    }
}

proof fn lemma_changed_only_at(t: Seq<TrackedView>, c: Seq<SnapshotView>, k: int)
    requires
        0 <= k,
        forall|i: int| 0 <= i < c.len() ==> tracked_has(t, #[trigger] c[i].name),
        forall|i: int|
            0 <= i < c.len() && i != k ==> tracked_lookup(t, #[trigger] c[i].name).snapshot == c[i],
    ensures
        changed_events(t, c) == if k < c.len() && tracked_lookup(t, c[k].name).snapshot != c[k] {
            changed_iface_events(c[k], tracked_lookup(t, c[k].name))
        } else {
            Seq::<MetricView>::empty()
        },
    decreases c.len(),
{
    if c.len() > 0 {
        let cp = c.drop_last();
        assert forall|i: int| 0 <= i < cp.len() implies tracked_has(t, #[trigger] cp[i].name) by {
            assert(cp[i] == c[i]);
        }
        assert forall|i: int| 0 <= i < cp.len() && i != k implies tracked_lookup(
            t,
            #[trigger] cp[i].name,
        ).snapshot == cp[i] by {
            assert(cp[i] == c[i]);
        }
        lemma_changed_only_at(t, cp, k);
        assert(c.last() == c[c.len() - 1]);
        if k < cp.len() {
            assert(cp[k] == c[k]);
        }
        if k == c.len() - 1 {
            if tracked_lookup(t, c[k].name).snapshot != c[k] {
                assert(changed_events(t, c) =~= Seq::<MetricView>::empty() + changed_iface_events(
                    c[k],
                    tracked_lookup(t, c[k].name),
                ));
            }
        }
    }
}

proof fn lemma_addrs_missing_none(a: Seq<IfAddr>, b: Seq<IfAddr>)
    requires
        forall|i: int| 0 <= i < a.len() ==> b.contains(#[trigger] a[i]),
    ensures
        addrs_missing(a, b) == Seq::<IfAddr>::empty(),
    decreases a.len(),
{
    if a.len() > 0 {
        let ap = a.drop_last();
        assert forall|i: int| 0 <= i < ap.len() implies b.contains(#[trigger] ap[i]) by {
            assert(ap[i] == a[i]);
        }
        lemma_addrs_missing_none(ap, b);
        assert(a.last() == a[a.len() - 1]);
    }
}

/// An interface whose MAC address alone changes between two snapshots (same name, index
/// and addresses): the second snapshot reports only that change, under the interface's
/// identifier: the removal of the old MAC address (if there was one), then the addition
/// of the new one (if there is one), and nothing when the MAC address is the same.
pub proof fn lemma_mac_change_reported(
    t: Seq<TrackedView>,
    c: Seq<SnapshotView>,
    us: Seq<u128>,
    k: int,
    mac: Option<Seq<char>>,
    ts2: Seq<ToolstackNetInterface>,
    us2: Seq<u128>,
)
    requires
        distinct_tracked(t),
        distinct_names(c),
        0 <= k < c.len(),
    ensures
        ({
            let nx = next_tracked(t, c, us);
            let c2 = c.update(k, SnapshotView { mac_addr: mac, ..c[k] });
            let u = tracked_lookup(nx, c[k].name).uuid;
            &&& count_new(nx, c2) == 0
            &&& snapshot_events(nx, c2, ts2, us2) == if mac != c[k].mac_addr {
                mac_removed(c[k].mac_addr, u) + mac_added(mac, u)
            } else {
                Seq::<MetricView>::empty()
            }
        }),
{
    let nx = next_tracked(t, c, us);
    let s2 = SnapshotView { mac_addr: mac, ..c[k] };
    let c2 = c.update(k, s2);
    assert forall|i: int| 0 <= i < c2.len() implies tracked_has(nx, #[trigger] c2[i].name) && (
    i != k ==> tracked_lookup(nx, c2[i].name).snapshot == c2[i]) && (i == k
        ==> tracked_lookup(nx, c2[i].name).snapshot == c[k]) by {
        lemma_snapshot_tracks_current(t, c, us, c[i].name);
        lemma_cur_lookup(c, i);
        assert(c2[i].name == c[i].name);
    }
    lemma_all_tracked_no_new(nx, c2, ts2, us2);
    lemma_changed_only_at(nx, c2, k);
    assert forall|i: int| 0 <= i < nx.len() implies present(c2, #[trigger] nx[i].snapshot.name) by {
        lemma_snapshot_tracks_current(t, c, us, nx[i].snapshot.name);
        assert(tracked_has(nx, nx[i].snapshot.name));
        let j = choose|j: int| 0 <= j < c.len() && c[j].name == nx[i].snapshot.name;
        assert(c2[j].name == c[j].name);
    }
    lemma_all_present_quiet(nx, c2);
    let p = tracked_lookup(nx, c[k].name);
    assert(c2[k] == s2);
    assert forall|i: int| 0 <= i < s2.addr.len() implies p.snapshot.addr.contains(#[trigger] s2.addr[i]) by {
        assert(p.snapshot.addr[i] == s2.addr[i]);
    }
    lemma_addrs_missing_none(s2.addr, p.snapshot.addr);
    lemma_addrs_missing_none(p.snapshot.addr, s2.addr);
    assert(addr_events(Seq::<IfAddr>::empty(), p.uuid) =~= Seq::<MetricView>::empty());
    assert(addr_rm_events(Seq::<IfAddr>::empty(), p.uuid) =~= Seq::<MetricView>::empty());
    if mac != c[k].mac_addr {
        assert(p.snapshot != c2[k]);
        assert(snapshot_events(nx, c2, ts2, us2) =~= mac_removed(c[k].mac_addr, p.uuid) + mac_added(
            mac,
            p.uuid,
        ));
    } else {
        assert(s2 == c[k]);
        assert(snapshot_events(nx, c2, ts2, us2) =~= Seq::<MetricView>::empty());
    }
}


/// An interface that a snapshot no longer lists is forgotten; when a later snapshot lists
/// it again it counts as new, and it is tracked again under one of the identifiers drawn
/// for that later snapshot.
pub proof fn lemma_returning_interface_is_new(
    t: Seq<TrackedView>,
    c1: Seq<SnapshotView>,
    us1: Seq<u128>,
    c2: Seq<SnapshotView>,
    us2: Seq<u128>,
    n: Seq<char>,
)
    requires
        distinct_tracked(t),
        distinct_names(c1),
        distinct_names(c2),
        !present(c1, n),
        present(c2, n),
    ensures
        ({
            let t1 = next_tracked(t, c1, us1);
            let t2 = next_tracked(t1, c2, us2);
            &&& !tracked_has(t1, n)
            &&& count_new(t1, c2) >= 1
            &&& tracked_has(t2, n)
            &&& exists|j: int|
                0 <= j < count_new(t1, c2) && tracked_lookup(t2, n).uuid == #[trigger] us2[j]
        }),
{
    let t1 = next_tracked(t, c1, us1);
    let t2 = next_tracked(t1, c2, us2);
    lemma_snapshot_tracks_current(t, c1, us1, n);
    lemma_snapshot_tracks_current(t1, c2, us2, n);
    lemma_kept(t1, c2);
    lemma_fresh(t1, c2, us2);
    let kv = kept(t1, c2);
    let fv = fresh(t1, c2, us2);
    assert(tracked_has(fv, n));
    let i = choose|i: int| 0 <= i < fv.len() && fv[i].snapshot.name == n;
    assert(t2[kv.len() + i] == fv[i]);
    lemma_tracked_lookup(t2, kv.len() + i);
    assert(tracked_lookup(t2, n).uuid == us2[i]);
}


/// How many events a MAC address gives: one if there is one.
pub open spec fn mac_count(m: Option<Seq<char>>) -> int {
    if m is Some {
        1
    } else {
        0
    }
}

proof fn lemma_addr_events_each(addrs: Seq<IfAddr>, u: u128)
    ensures
        addr_events(addrs, u).len() == addrs.len(),
        forall|i: int|
            0 <= i < addrs.len() ==> #[trigger] addr_events(addrs, u)[i] == ip_event(u, OpView::AddIp(addrs[i].ip)),
    decreases addrs.len(),
{
    if addrs.len() > 0 {
        let ap = addrs.drop_last();
        lemma_addr_events_each(ap, u);
        assert forall|i: int| 0 <= i < addrs.len() implies #[trigger] addr_events(addrs, u)[i]
            == ip_event(u, OpView::AddIp(addrs[i].ip)) by {
            if i < ap.len() {
                assert(ap[i] == addrs[i]);
            }
        }
    }
}

/// A newly seen interface is announced by `AddIface` (with its identifier, index, name
/// and toolstack identity), then one `AddIp` per address of its snapshot, in the
/// snapshot's order, then `AddMac` of its MAC address when it has one; nothing else.
pub proof fn lemma_new_iface_announces_each_address(
    s: SnapshotView,
    u: u128,
    ts: ToolstackNetInterface,
)
    ensures
        new_iface_events(s, u, ts).len() == 1 + s.addr.len() + mac_count(s.mac_addr),
        new_iface_events(s, u, ts)[0] == MetricView::AddIface(
            (IfaceView { uuid: u, index: s.index, name: s.name, toolstack_iface: ts }),
        ),
        forall|i: int|
            0 <= i < s.addr.len() ==> #[trigger] new_iface_events(s, u, ts)[1 + i]
                == ip_event(u, OpView::AddIp(s.addr[i].ip)),
        match s.mac_addr {
            Some(m) => new_iface_events(s, u, ts)[1 + s.addr.len() as int] == ip_event(u, OpView::AddMac(m)),
            None => true,
        },
{
    lemma_addr_events_each(s.addr, u);
    let e = new_iface_events(s, u, ts);
    assert forall|i: int| 0 <= i < s.addr.len() implies #[trigger] e[1 + i]
        == ip_event(u, OpView::AddIp(s.addr[i].ip)) by {
        assert(e[1 + i] == addr_events(s.addr, u)[i]);
    }
}

/// The first snapshot of a plugin that tracks nothing, listing one interface, reports
/// exactly that interface's announcement: `AddIface`, one `AddIp` per address in order,
/// then `AddMac` if it has a MAC address.
pub proof fn lemma_first_snapshot_announces(
    s: SnapshotView,
    u: u128,
    ts: ToolstackNetInterface,
)
    ensures
        count_new(Seq::<TrackedView>::empty(), seq![s]) == 1,
        snapshot_events(Seq::<TrackedView>::empty(), seq![s], seq![ts], seq![u]) == new_iface_events(
            s,
            u,
            ts,
        ),
        snapshot_events(Seq::<TrackedView>::empty(), seq![s], seq![ts], seq![u]).len() == 1
            + s.addr.len() + mac_count(s.mac_addr),
        forall|i: int|
            0 <= i < s.addr.len() ==> #[trigger] snapshot_events(
                Seq::<TrackedView>::empty(),
                seq![s],
                seq![ts],
                seq![u],
            )[1 + i] == ip_event(u, OpView::AddIp(s.addr[i].ip)),
{
    let c = seq![s];
    let e = Seq::<TrackedView>::empty();
    lemma_flush_announces_all(c, seq![ts], seq![u]);
    assert(c.drop_last() =~= Seq::<SnapshotView>::empty());
    assert(!tracked_has(e, s.name));
    assert(c.last() == s);
    assert(count_new(e, c.drop_last()) == 0);
    assert(new_events(e, c.drop_last(), seq![ts], seq![u]) == Seq::<MetricView>::empty());
    assert(seq![u][0] == u && seq![ts][0] == ts);
    assert(new_events(e, c, seq![ts], seq![u]) =~= Seq::<MetricView>::empty() + new_iface_events(s, u, ts));
    lemma_new_iface_announces_each_address(s, u, ts);
}

} // verus!
