//! Telling which guest network interfaces are Xen VIFs, and under which id.
use vstd::prelude::*;
use crate::metrics::ToolstackNetInterface;
use crate::text::{
    chars_of, dec, eq_ignore_ascii_case, eq_ignore_ascii_case_spec, has_prefix,
    lemma_parse_decimal, parse_u32_chars, parse_u32_spec, skip_chars, starts_with, trim,
    trim_spec,
};

verus! {

/// Something that tells what the toolstack knows an interface as.
pub trait VifDetector {
    fn get_toolstack_interface(&self, iface_name: &str, mac_addr: Option<&str>) -> Option<
        ToolstackNetInterface,
    >;
}

/// FreeBSD names its VIFs `xn<id>`.
pub open spec fn freebsd_vif(name: Seq<char>) -> Option<ToolstackNetInterface> {
    if has_prefix(name, "xn"@) {
        match parse_u32_spec(name.skip(2)) {
            Some(n) => Some(ToolstackNetInterface::Vif(n)),
            None => None,
        }
    } else {
        None
    }
}

/// The detector of FreeBSD, which goes by the interface's name.
#[derive(Default)]
pub struct FreebsdVifDetector;

impl VifDetector for FreebsdVifDetector {
    fn get_toolstack_interface(&self, iface_name: &str, _mac_addr: Option<&str>) -> (r: Option<
        ToolstackNetInterface,
    >)
        ensures
            r == freebsd_vif(iface_name@),
    {
        let name = chars_of(iface_name);
        let prefix = chars_of("xn");
        proof {
            reveal_strlit("xn");
        }
        if !starts_with(&name, &prefix) {
            return None;
        }
        let rest = skip_chars(&name, 2);
        match parse_u32_chars(&rest) {
            Some(n) => Some(ToolstackNetInterface::Vif(n)),
            None => None,
        }
    }
}

/// `xn<n>` is VIF `n`.
pub proof fn lemma_freebsd_vif_name(n: u32)
    ensures
        freebsd_vif("xn"@ + dec(n as nat)) == Some(ToolstackNetInterface::Vif(n)),
{
    reveal_strlit("xn");
    let s = "xn"@ + dec(n as nat);
    assert(s.take(2) =~= "xn"@);
    assert(s.skip(2) =~= dec(n as nat));
    lemma_parse_decimal(n);
}

/// A detector that knows no VIF.
#[derive(Default)]
pub struct DummyVifDetector;

impl VifDetector for DummyVifDetector {
    fn get_toolstack_interface(&self, _iface_name: &str, _mac_addr: Option<&str>) -> (r: Option<
        ToolstackNetInterface,
    >)
        ensures
            r is None,
    {
        None
    }
}

/// The xenstore node of a VIF device, under which its id follows.
pub open spec fn vif_node_prefix() -> Seq<char> {
    "device/vif/"@
}

/// What Linux's sysfs tells of an interface: a device of type `vif` whose node name is
/// `device/vif/<id>` is VIF `id` (both files read with surrounding white space removed);
/// anything else, or a file that could not be read, is no VIF.
pub open spec fn linux_vif(devtype: Option<Seq<char>>, nodename: Option<Seq<char>>) -> Option<
    ToolstackNetInterface,
> {
    match (devtype, nodename) {
        (Some(d), Some(n)) => if trim_spec(d) == "vif"@ && has_prefix(trim_spec(n), vif_node_prefix()) {
            match parse_u32_spec(trim_spec(n).skip(vif_node_prefix().len() as int)) {
                Some(id) => Some(ToolstackNetInterface::Vif(id)),
                None => None,
            }
        } else {
            None
        },
        _ => None,
    }
}

/// The inputs on which Linux's detection finds a VIF node whose id is no number, and
/// stops the agent.
pub open spec fn linux_vif_refused(devtype: Option<Seq<char>>, nodename: Option<Seq<char>>) -> bool {
    match (devtype, nodename) {
        (Some(d), Some(n)) => trim_spec(d) == "vif"@ && has_prefix(trim_spec(n), vif_node_prefix())
            && parse_u32_spec(trim_spec(n).skip(vif_node_prefix().len() as int)) is None,
        _ => false,
    }
}

fn opt_chars(s: Option<&str>) -> (r: Option<Vec<char>>)
    ensures
        match s {
            Some(t) => r is Some && r->Some_0@ == t@,
            None => r is None,
        },
{
    match s {
        Some(t) => Some(chars_of(t)),
        None => None,
    }
}

pub open spec fn opt_str_view(s: Option<&str>) -> Option<Seq<char>> {
    match s {
        Some(t) => Some(t@),
        None => None,
    }
}

/// The detector of Linux, which reads the interface's device type and xenstore node name
/// in sysfs.
#[derive(Default)]
pub struct LinuxVifDetector;

impl LinuxVifDetector {
    /// Whether sysfs names a VIF node whose id is no number, on which the detection stops
    /// the agent.
    pub fn refuses(&self, devtype: Option<&str>, nodename: Option<&str>) -> (r: bool)
        ensures
            r == linux_vif_refused(opt_str_view(devtype), opt_str_view(nodename)),
    {
        proof {
            reveal_strlit("vif");
            reveal_strlit("device/vif/");
        }
        let (d, n) = match (opt_chars(devtype), opt_chars(nodename)) {
            (Some(d), Some(n)) => (d, n),
            _ => {
                return false;
            },
        };
        let dt = trim(&d);
        let vif = chars_of("vif");
        if !(dt.len() == 3 && starts_with(&dt, &vif)) {
            assert(dt@ != "vif"@) by {
                if dt@ == "vif"@ {
                    assert(dt@.take(3) =~= dt@);
                }
            }
            return false;
        }
        assert(dt@.take(3) =~= dt@);
        let nt = trim(&n);
        let prefix = chars_of("device/vif/");
        if !starts_with(&nt, &prefix) {
            return false;
        }
        let rest = skip_chars(&nt, prefix.len());
        parse_u32_chars(&rest).is_none()
    }

    /// The decision on what sysfs holds for an interface: `devtype` and `nodename` are the
    /// contents of those files of the interface's device, `None` where they could not be
    /// read.
    pub fn identify(&self, devtype: Option<&str>, nodename: Option<&str>) -> (r: Option<
        ToolstackNetInterface,
    >)
        requires
            !linux_vif_refused(opt_str_view(devtype), opt_str_view(nodename)),
        ensures
            r == linux_vif(opt_str_view(devtype), opt_str_view(nodename)),
    {
        proof {
            reveal_strlit("vif");
            reveal_strlit("device/vif/");
        }
        let d = match opt_chars(devtype) {
            Some(d) => d,
            None => {
                return None;
            },
        };
        let dt = trim(&d);
        let vif = chars_of("vif");
        if !(dt.len() == 3 && starts_with(&dt, &vif)) {
            assert(dt@ != "vif"@) by {
                if dt@ == "vif"@ {
                    assert(dt@.take(3) =~= dt@);
                }
            }
            return None;
        }
        assert(dt@.take(3) =~= dt@);
        let n = match opt_chars(nodename) {
            Some(n) => n,
            None => {
                return None;
            },
        };
        let nt = trim(&n);
        let prefix = chars_of("device/vif/");
        if !starts_with(&nt, &prefix) {
            return None;
        }
        let rest = skip_chars(&nt, prefix.len());
        match parse_u32_chars(&rest) {
            Some(id) => Some(ToolstackNetInterface::Vif(id)),
            None => None,
        }
    }
}

/// What a VIF of the toolstack is recorded as in xenstore: its id, and its MAC address
/// if that could be read.
pub struct VifEntry {
    pub id: String,
    pub mac: Option<String>,
}

/// Whether a VIF entry carries the MAC address looked for (both compared without
/// surrounding white space, ignoring ASCII case).
pub open spec fn entry_matches(e: VifEntry, mac: Seq<char>) -> bool {
    match e.mac {
        Some(m) => eq_ignore_ascii_case_spec(trim_spec(mac), trim_spec(m@)),
        None => false,
    }
}

/// Position of the first entry that carries the MAC address.
pub open spec fn first_match(entries: Seq<VifEntry>, mac: Seq<char>) -> Option<int>
    decreases entries.len(),
{
    if entries.len() == 0 {
        None
    } else {
        match first_match(entries.drop_last(), mac) {
            Some(i) => Some(i),
            None => if entry_matches(entries.last(), mac) {
                Some(entries.len() - 1)
            } else {
                None
            },
        }
    }
}

/// What matching a MAC address against the VIFs in xenstore finds: no MAC address or
/// no VIF list is no answer; the first VIF with that address is the answer; an
/// interface that matches none is one the toolstack does not know.
pub open spec fn xenstore_vif(mac: Option<Seq<char>>, entries: Option<Seq<VifEntry>>) -> Option<
    ToolstackNetInterface,
> {
    match (mac, entries) {
        (Some(m), Some(es)) => match first_match(es, m) {
            Some(i) => match parse_u32_spec(es[i].id@) {
                Some(id) => Some(ToolstackNetInterface::Vif(id)),
                None => None,
            },
            None => Some(ToolstackNetInterface::Unknown),
        },
        _ => None,
    }
}

/// The inputs on which the VIF that matches has an id that is no number, which stops
/// the agent.
pub open spec fn xenstore_vif_refused(mac: Option<Seq<char>>, entries: Option<Seq<VifEntry>>) -> bool {
    match (mac, entries) {
        (Some(m), Some(es)) => match first_match(es, m) {
            Some(i) => parse_u32_spec(es[i].id@) is None,
            None => false,
        },
        _ => false,
    }
}

proof fn lemma_first_match(entries: Seq<VifEntry>, mac: Seq<char>)
    ensures
        match first_match(entries, mac) {
            Some(i) => 0 <= i < entries.len() && entry_matches(entries[i], mac) && forall|j: int|
                0 <= j < i ==> !entry_matches(#[trigger] entries[j], mac),
            None => forall|j: int| 0 <= j < entries.len() ==> !entry_matches(#[trigger] entries[j], mac),
        },
    decreases entries.len(),
{
    if entries.len() > 0 {
        lemma_first_match(entries.drop_last(), mac);
        match first_match(entries.drop_last(), mac) {
            Some(i) => {
                assert(entries[i] == entries.drop_last()[i]);
                assert forall|j: int| 0 <= j < i implies !entry_matches(#[trigger] entries[j], mac) by {
                    assert(entries[j] == entries.drop_last()[j]);
                }
            },
            None => {
                assert forall|j: int| 0 <= j < entries.len() - 1 implies !entry_matches(#[trigger] entries[j], mac) by {
                    assert(entries[j] == entries.drop_last()[j]);
                }
            },
        }
    }
}

proof fn lemma_first_match_prefix(entries: Seq<VifEntry>, mac: Seq<char>, k: int)
    requires
        0 <= k <= entries.len(),
        forall|j: int| 0 <= j < k ==> !entry_matches(#[trigger] entries[j], mac),
    ensures
        first_match(entries.take(k), mac) is None,
    decreases k,
{
    if k > 0 {
        assert(entries.take(k).drop_last() =~= entries.take(k - 1));
        lemma_first_match_prefix(entries, mac, k - 1);
    }
}

proof fn lemma_first_match_at(entries: Seq<VifEntry>, mac: Seq<char>, k: int)
    requires
        0 <= k < entries.len(),
        entry_matches(entries[k], mac),
        forall|j: int| 0 <= j < k ==> !entry_matches(#[trigger] entries[j], mac),
    ensures
        first_match(entries, mac) == Some(k),
{
    lemma_first_match(entries, mac);
    match first_match(entries, mac) {
        Some(i) => {
            if i < k {
                assert(!entry_matches(entries[i], mac));
            }
            if i > k {
                assert(!entry_matches(entries[k], mac));
            }
        },
        None => {
            assert(!entry_matches(entries[k], mac));
        },
    }
}

/// The detector that matches MAC addresses against what xenstore records of the VIFs.
pub struct XenstoreVifDetector;

impl XenstoreVifDetector {
    /// Whether the VIF that carries the MAC address has an id that is no number, on which
    /// the detection stops the agent.
    pub fn refuses(&self, mac_addr: Option<&str>, entries: Option<&Vec<VifEntry>>) -> (r: bool)
        ensures
            r == xenstore_vif_refused(
                opt_str_view(mac_addr),
                match entries {
                    Some(v) => Some(v@),
                    None => None,
                },
            ),
    {
        let (mac, es) = match (mac_addr, entries) {
            (Some(m), Some(v)) => (m, v),
            _ => {
                return false;
            },
        };
        let want = trim(&chars_of(mac));
        let mut i: usize = 0;
        while i < es.len()
            invariant
                i <= es.len(),
                want@ == trim_spec(mac@),
                mac_addr == Some(mac),
                entries == Some(es),
                forall|j: int| 0 <= j < i ==> !entry_matches(#[trigger] es@[j], mac@),
            decreases es.len() - i,
        {
            match &es[i].mac {
                Some(m) => {
                    let have = trim(&chars_of(m.as_str()));
                    if eq_ignore_ascii_case(&want, &have) {
                        assert(es@[i as int].mac == Some(*m));
                        assert(entry_matches(es@[i as int], mac@));
                        proof {
                            lemma_first_match_at(es@, mac@, i as int);
                        }
                        let idc = chars_of(es[i].id.as_str());
                        return parse_u32_chars(&idc).is_none();
                    }
                },
                None => {},
            }
            i = i + 1;
        }
        proof {
            lemma_first_match_prefix(es@, mac@, es@.len() as int);
            assert(es@.take(es@.len() as int) =~= es@);
        }
        false
    }

    /// The decision, given the interface's MAC address and the VIF entries read from
    /// xenstore (`None` where the list could not be read).
    pub fn identify(&self, mac_addr: Option<&str>, entries: Option<&Vec<VifEntry>>) -> (r: Option<
        ToolstackNetInterface,
    >)
        requires
            !xenstore_vif_refused(
                opt_str_view(mac_addr),
                match entries {
                    Some(v) => Some(v@),
                    None => None,
                },
            ),
        ensures
            r == xenstore_vif(
                opt_str_view(mac_addr),
                match entries {
                    Some(v) => Some(v@),
                    None => None,
                },
            ),
    {
        let mac = match mac_addr {
            Some(m) => m,
            None => {
                return None;
            },
        };
        let es = match entries {
            Some(v) => v,
            None => {
                return None;
            },
        };
        let want = trim(&chars_of(mac));
        let mut i: usize = 0;
        while i < es.len()
            invariant
                i <= es.len(),
                want@ == trim_spec(mac@),
                mac_addr == Some(mac),
                entries == Some(es),
                forall|j: int| 0 <= j < i ==> !entry_matches(#[trigger] es@[j], mac@),
            decreases es.len() - i,
        {
            match &es[i].mac {
                Some(m) => {
                    let have = trim(&chars_of(m.as_str()));
                    if eq_ignore_ascii_case(&want, &have) {
                        assert(es@[i as int].mac == Some(*m));
                        assert(entry_matches(es@[i as int], mac@));
                        proof {
                            lemma_first_match_at(es@, mac@, i as int);
                        }
                        let idc = chars_of(es[i].id.as_str());

                        return match parse_u32_chars(&idc) {
                            Some(id) => Some(ToolstackNetInterface::Vif(id)),
                            None => None,
                        };
                    }
                },
                None => {},
            }
            i = i + 1;
        }
        proof {
            lemma_first_match_prefix(es@, mac@, es@.len() as int);
            assert(es@.take(es@.len() as int) =~= es@);
        }
        Some(ToolstackNetInterface::Unknown)
    }
}

/// The detectors an agent can run with.
#[derive(Clone, Copy, Debug, PartialEq, Eq, Structural)]
pub enum PlatformVifDetector {
    Linux,
    Freebsd,
    Xenstore,
    Disabled,
}

/// The methods a user can ask for to tell VIFs.
#[derive(Clone, Copy, Debug, PartialEq, Eq, Structural)]
pub enum VifDetectionMethod {
    Linux,
    Freebsd,
    Xenstore,
    Disabled,
}

impl Default for VifDetectionMethod {
    /// The method of the platform the agent runs on.
    fn default() -> (r: Self)
        ensures
            r == VifDetectionMethod::Linux,
    {
        VifDetectionMethod::Linux
    }
}

/// The detector for a method: xenstore matching needs xenstore, and without it the agent
/// detects nothing.
pub fn build_platform_vif_detector(kind: VifDetectionMethod, xs_available: bool) -> (r:
    PlatformVifDetector)
    ensures
        r == match kind {
            VifDetectionMethod::Linux => PlatformVifDetector::Linux,
            VifDetectionMethod::Freebsd => PlatformVifDetector::Freebsd,
            VifDetectionMethod::Xenstore => if xs_available {
                PlatformVifDetector::Xenstore
            } else {
                PlatformVifDetector::Disabled
            },
            VifDetectionMethod::Disabled => PlatformVifDetector::Disabled,
        },
{
    match kind {
        VifDetectionMethod::Linux => PlatformVifDetector::Linux,
        VifDetectionMethod::Freebsd => PlatformVifDetector::Freebsd,
        VifDetectionMethod::Xenstore => if xs_available {
            PlatformVifDetector::Xenstore
        } else {
            PlatformVifDetector::Disabled
        },
        VifDetectionMethod::Disabled => PlatformVifDetector::Disabled,
    }
}

} // verus!
