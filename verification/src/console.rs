//! A publisher that reports metrics as lines of text on the console.
use vstd::prelude::*;
use std::collections::HashMap;
use crate::metrics::{
    ip_text, version_text, GuestMetric, IfaceView, MetricView, NetEventOp, NetInterface, OpView,
    ToolstackNetInterface,
};
use crate::text::{dec, push_decimal};
use crate::xs_std::lookup_iface;

verus! {

/// The lines that report a metric, given the interfaces announced so far.
pub open spec fn console_lines(ifaces: Map<u128, IfaceView>, m: MetricView) -> Seq<Seq<char>> {
    match m {
        MetricView::OperatingSystem(info) => seq![
            "OS: "@ + info.os_type + " - Version: "@ + version_text(info.os_version),
        ] + match info.kernel_release {
            Some(r) => seq!["Kernel version: "@ + r],
            None => Seq::empty(),
        },
        MetricView::Memory { mem_free, mem_total } => seq![
            "Memory: "@ + dec((mem_free / 1024) as nat) + seq!['/'] + dec((mem_total / 1024) as nat)
                + " KB"@,
        ],
        MetricView::AddIface(i) => seq![
            dec(i.index as nat) + " +IFACE ("@ + match i.toolstack_iface {
                ToolstackNetInterface::Unknown => "unknown"@,
                ToolstackNetInterface::Vif(id) => "vif/"@ + dec(id as nat),
            } + seq![')'],
        ],
        MetricView::RmIface(uuid) => match lookup_iface(ifaces, uuid) {
            Some(i) => seq![dec(i.index as nat) + " -IFACE"@],
            None => Seq::empty(),
        },
        MetricView::Network { iface_id, op } => match lookup_iface(ifaces, iface_id) {
            Some(i) => seq![
                dec(i.index as nat) + match op {
                    OpView::AddIp(a) => " +IP  "@ + ip_text(a),
                    OpView::RmIp(a) => " -IP  "@ + ip_text(a),
                    OpView::AddMac(mac) => " +MAC "@ + mac,
                    OpView::RmMac(mac) => " -MAC "@ + mac,
                },
            ],
            None => Seq::empty(),
        },
        MetricView::CleanupIfaces => Seq::empty(),
        MetricView::GetClipboard(_) => Seq::empty(),
    }
}

/// The interfaces known after a metric.
pub open spec fn console_next_ifaces(ifaces: Map<u128, IfaceView>, m: MetricView) -> Map<
    u128,
    IfaceView,
> {
    match m {
        MetricView::AddIface(i) => ifaces.insert(i.uuid, i),
        MetricView::RmIface(uuid) => ifaces.remove(uuid),
        _ => ifaces,
    }
}

/// The text of each line.
pub open spec fn lines_view(v: Seq<String>) -> Seq<Seq<char>> {
    v.map_values(|s: String| s@)
}

fn push_line(out: &mut Vec<String>, line: String)
    ensures
        lines_view(final(out)@) == lines_view(old(out)@).push(line@),
{
    let ghost l = line@;
    out.push(line);
    assert(lines_view(out@) =~= lines_view(old(out)@).push(l));
}

fn decimal_string(n: u64) -> (s: String)
    ensures
        s@ == dec(n as nat),
{
    let mut s = String::new();
    push_decimal(&mut s, n);
    s
}

/// Publisher that prints each metric; it remembers the interfaces announced.
pub struct ConsolePublisher {
    ifaces: HashMap<u128, NetInterface>,
}

impl ConsolePublisher {
    /// The interfaces announced so far, by identifier.
    pub closed spec fn iface_map(&self) -> Map<u128, IfaceView> {
        self.ifaces@.map_values(|i: NetInterface| i@)
    }

    /// A publisher that knows no interface yet.
    pub fn new() -> (r: ConsolePublisher)
        ensures
            r.iface_map() == Map::<u128, IfaceView>::empty(),
    {
        let r = ConsolePublisher { ifaces: HashMap::new() };
        assert(r.iface_map() =~= Map::<u128, IfaceView>::empty());
        r
    }

    /// The lines that report a metric; events of interfaces that were never announced
    /// are not reported.
    pub fn process_message(&mut self, metric: GuestMetric) -> (r: Vec<String>)
        ensures
            lines_view(r@) == console_lines(old(self).iface_map(), metric@),
            final(self).iface_map() == console_next_ifaces(old(self).iface_map(), metric@),
    {
        broadcast use vstd::std_specs::hash::group_hash_axioms;
        let mut out: Vec<String> = Vec::new();
        assert(lines_view(out@) =~= Seq::<Seq<char>>::empty());
        let ghost mv = metric@;
        match metric {
            GuestMetric::OperatingSystem(info) => {
                let mut l = "OS: ".to_owned();
                l.append(info.os_base_info.os_type.as_str());
                l.append(" - Version: ");
                let v = info.os_base_info.os_version.to_text();
                l.append(v.as_str());
                assert(l@ =~= "OS: "@ + info.os_base_info.os_type@ + " - Version: "@ + version_text(info.os_base_info.os_version@));
                push_line(&mut out, l);
                match &info.kernel_info {
                    Some(k) => {
                        let mut l2 = "Kernel version: ".to_owned();
                        l2.append(k.release.as_str());
                        push_line(&mut out, l2);
                        assert(lines_view(out@) =~= console_lines(old(self).iface_map(), mv));
                    },
                    None => {
                        assert(lines_view(out@) =~= console_lines(old(self).iface_map(), mv));
                    },
                }
            },
            GuestMetric::Memory(m) => {
                let mut l = "Memory: ".to_owned();
                push_decimal(&mut l, (m.mem_free / 1024) as u64);
                l.push('/');
                push_decimal(&mut l, (m.mem_total / 1024) as u64);
                l.append(" KB");
                assert(l@ =~= "Memory: "@ + dec((m.mem_free / 1024) as nat) + seq!['/'] + dec((m.mem_total / 1024) as nat) + " KB"@);
                push_line(&mut out, l);
                assert(lines_view(out@) =~= console_lines(old(self).iface_map(), mv));
            },
            GuestMetric::AddIface(iface) => {
                let mut l = decimal_string(iface.index as u64);
                l.append(" +IFACE (");
                match iface.toolstack_iface {
                    ToolstackNetInterface::Unknown => {
                        l.append("unknown");
                    },
                    ToolstackNetInterface::Vif(id) => {
                        l.append("vif/");
                        push_decimal(&mut l, id as u64);
                    },
                }
                l.push(')');
                assert(l@ =~= dec(iface.index as nat) + " +IFACE ("@ + match iface.toolstack_iface {
                    ToolstackNetInterface::Unknown => "unknown"@,
                    ToolstackNetInterface::Vif(id) => "vif/"@ + dec(id as nat),
                } + seq![')']);
                push_line(&mut out, l);
                assert(lines_view(out@) =~= console_lines(old(self).iface_map(), mv));
                let ghost v = iface@;
                let uuid = iface.uuid;
                self.ifaces.insert(uuid, iface);
                assert(self.iface_map() =~= old(self).iface_map().insert(uuid, v));
            },
            GuestMetric::RmIface(uuid) => {
                let removed = self.ifaces.remove(&uuid);
                if let Some(iface) = removed {
                    let mut l = decimal_string(iface.index as u64);
                    l.append(" -IFACE");
                    push_line(&mut out, l);
                    assert(lines_view(out@) =~= console_lines(old(self).iface_map(), mv));
                }
                assert(self.iface_map() =~= old(self).iface_map().remove(uuid));
            },
            GuestMetric::Network(ev) => {
                if let Some(iface) = self.ifaces.get(&ev.iface_id) {
                    let mut l = decimal_string(iface.index as u64);
                    match &ev.op {
                        NetEventOp::AddIp(a) => {
                            l.append(" +IP  ");
                            l.append(a.to_text().as_str());
                        },
                        NetEventOp::RmIp(a) => {
                            l.append(" -IP  ");
                            l.append(a.to_text().as_str());
                        },
                        NetEventOp::AddMac(mac) => {
                            l.append(" +MAC ");
                            l.append(mac.as_str());
                        },
                        NetEventOp::RmMac(mac) => {
                            l.append(" -MAC ");
                            l.append(mac.as_str());
                        },
                    }
                    assert(l@ =~= dec(iface.index as nat) + match ev.op@ {
                        OpView::AddIp(a) => " +IP  "@ + ip_text(a),
                        OpView::RmIp(a) => " -IP  "@ + ip_text(a),
                        OpView::AddMac(mac) => " +MAC "@ + mac,
                        OpView::RmMac(mac) => " -MAC "@ + mac,
                    });
                    push_line(&mut out, l);
                    assert(lines_view(out@) =~= console_lines(old(self).iface_map(), mv));
                }
            },
            GuestMetric::CleanupIfaces => {},
            GuestMetric::GetClipboard(_) => {},
        }
        assert(lines_view(out@) =~= console_lines(old(self).iface_map(), mv));
        out
    }
}

} // verus!
