//! The agent's plumbing decisions: which publisher and which network collector run,
//! live migration detection, memory reports and log lines.
use vstd::prelude::*;
use crate::console::ConsolePublisher;
use crate::metrics::{GuestMetric, MemoryInfo};
use crate::netlink::NetlinkPlugin;
use crate::simple_net::SimpleNetworkPlugin;
use crate::report_text::{lines_of, nested_view, split_lines};
use crate::text::{
    chars_of, has_prefix, is_whitespace, is_ws, parse_u32_chars, parse_u32_spec, skip_chars,
    starts_with, trim, trim_spec,
};

verus! {

/// Where the metrics go.
#[derive(Clone, Copy, Debug, PartialEq, Eq, Structural)]
pub enum PublisherKind {
    Console,
    Xenstore,
    XenstoreRfc,
}

impl Default for PublisherKind {
    fn default() -> (r: Self)
        ensures
            r == PublisherKind::Xenstore,
    {
        PublisherKind::Xenstore
    }
}

/// How network interfaces are followed.
#[derive(Clone, Copy, Debug, PartialEq, Eq, Structural)]
pub enum NetworkPluginKind {
    Simple,
    Netlink,
}

impl Default for NetworkPluginKind {
    fn default() -> (r: Self)
        ensures
            r == NetworkPluginKind::Simple,
    {
        NetworkPluginKind::Simple
    }
}

/// The publisher of the "std" xenstore schema, run with the agent's xenstore connection.
pub struct XenstoreStdPublisher;

/// The publisher of the proposed xenstore schema, run with the agent's xenstore
/// connection.
pub struct XenstoreRfcPublisher;

/// The publisher the agent runs.
pub enum AgentPublisher {
    Console(ConsolePublisher),
    XenstoreRfc(XenstoreRfcPublisher),
    XenstoreStd(XenstoreStdPublisher),
}

impl AgentPublisher {
    /// The publisher of a kind; the console one starts knowing no interface.
    pub fn new(kind: PublisherKind) -> (r: AgentPublisher)
        ensures
            match kind {
                PublisherKind::Console => r is Console && r->Console_0.iface_map() == Map::<
                    u128,
                    crate::metrics::IfaceView,
                >::empty(),
                PublisherKind::Xenstore => r is XenstoreStd,
                PublisherKind::XenstoreRfc => r is XenstoreRfc,
            },
    {
        match kind {
            PublisherKind::Console => AgentPublisher::Console(ConsolePublisher::new()),
            PublisherKind::Xenstore => AgentPublisher::XenstoreStd(XenstoreStdPublisher),
            PublisherKind::XenstoreRfc => AgentPublisher::XenstoreRfc(XenstoreRfcPublisher),
        }
    }
}

/// The publisher named by the `XENSTORE_PUBLISHER` setting:
/// `console`, `rfc`, and the "std" schema for anything else (an unset setting too).
pub open spec fn publisher_named(name: Seq<char>) -> PublisherKind {
    if name == "console"@ {
        PublisherKind::Console
    } else if name == "rfc"@ {
        PublisherKind::XenstoreRfc
    } else {
        PublisherKind::Xenstore
    }
}

/// The publisher named by a setting.
pub fn publisher_kind_of(name: &str) -> (r: PublisherKind)
    ensures
        r == publisher_named(name@),
{
    let console = "console";
    let rfc = "rfc";
    if str_equal(name, console) {
        PublisherKind::Console
    } else if str_equal(name, rfc) {
        PublisherKind::XenstoreRfc
    } else {
        PublisherKind::Xenstore
    }
}

pub(crate) fn str_equal(a: &str, b: &str) -> (r: bool)
    ensures
        r == (a@ == b@),
{
    let x = crate::text::chars_of(a);
    let y = crate::text::chars_of(b);
    if x.len() != y.len() {
        return false;
    }
    let mut i: usize = 0;
    while i < x.len()
        invariant
            x.len() == y.len(),
            x@ == a@,
            y@ == b@,
            i <= x.len(),
            forall|k: int| 0 <= k < i ==> x@[k] == y@[k],
        decreases x.len() - i,
    {
        if x[i] != y[i] {
            assert(x@[i as int] != y@[i as int]);
            return false;
        }
        i = i + 1;
    }
    assert(x@ =~= y@);
    true
}

/// The network collector the agent runs.
pub enum NetworkPlugin {
    Simple(SimpleNetworkPlugin),
    Netlink(NetlinkPlugin),
}

impl NetworkPlugin {
    /// The collector of a kind, knowing no interface yet.
    pub fn new(kind: NetworkPluginKind) -> (r: NetworkPlugin)
        ensures
            match kind {
                NetworkPluginKind::Simple => r is Simple && r->Simple_0.wf() && r->Simple_0@.len()
                    == 0,
                NetworkPluginKind::Netlink => r is Netlink && r->Netlink_0.index_map() == Map::<
                    u32,
                    u128,
                >::empty(),
            },
    {
        match kind {
            NetworkPluginKind::Simple => NetworkPlugin::Simple(SimpleNetworkPlugin::new()),
            NetworkPluginKind::Netlink => NetworkPlugin::Netlink(NetlinkPlugin::new()),
        }
    }
}

/// How live migrations are detected.
#[derive(Clone, Copy, Debug, PartialEq, Eq, Structural)]
pub enum LiveMigrationDetect {
    Disabled,
    /// A sentinel watch, which fires once when created and once at each resume.
    XenStore,
    /// The Windows driver.
    Windows,
}

/// The sentinel watch of the xenstore method: its first event is the one every watch
/// gets when it is created, each later one is a resume after a migration.
pub struct SentinelWatch {
    armed: bool,
}

impl SentinelWatch {
    pub closed spec fn is_armed(&self) -> bool {
        self.armed
    }

    /// A watch that has not fired yet.
    pub fn new() -> (r: SentinelWatch)
        ensures
            !r.is_armed(),
    {
        SentinelWatch { armed: false }
    }

    /// The watch fired: whether this is a live migration.
    pub fn on_event(&mut self) -> (migrated: bool)
        ensures
            migrated == old(self).is_armed(),
            final(self).is_armed(),
    {
        let migrated = self.armed;
        self.armed = true;
        migrated
    }
}

/// Why memory figures could not be read.
#[derive(Clone, Copy, Debug, PartialEq, Eq, Structural)]
pub enum MemoryError {
    /// The platform gives no such figure.
    Unsupported,
    /// The figure could not be read.
    Failed,
}

/// A source of memory figures, in kilobytes.
pub trait MemorySource: Sized {
    fn get_total_kb(&mut self) -> Result<usize, MemoryError>;

    fn get_available_kb(&mut self) -> Result<usize, MemoryError>;
}

/// The source of a platform that gives no memory figures.
pub struct DummyMemorySource;

impl MemorySource for DummyMemorySource {
    fn get_total_kb(&mut self) -> (r: Result<usize, MemoryError>)
        ensures
            r == Err::<usize, MemoryError>(MemoryError::Unsupported),
    {
        Err(MemoryError::Unsupported)
    }

    fn get_available_kb(&mut self) -> (r: Result<usize, MemoryError>)
        ensures
            r == Err::<usize, MemoryError>(MemoryError::Unsupported),
    {
        Err(MemoryError::Unsupported)
    }
}

/// The source of Windows: the figures of the last memory status read from the system,
/// reported as the system gives them.
pub struct WindowsMemorySource {
    pub total_phys: usize,
    pub avail_phys: usize,
}

impl MemorySource for WindowsMemorySource {
    fn get_total_kb(&mut self) -> (r: Result<usize, MemoryError>)
        ensures
            r == Ok::<usize, MemoryError>(old(self).total_phys),
    {
        Ok(self.total_phys)
    }

    fn get_available_kb(&mut self) -> (r: Result<usize, MemoryError>)
        ensures
            r == Ok::<usize, MemoryError>(old(self).avail_phys),
    {
        Ok(self.avail_phys)
    }
}

/// The periodic memory report.
pub struct MemoryPlugin;

impl MemoryPlugin {
    /// The report of a tick, given the available and total memory read from the source:
    /// free memory is the available memory.
    pub fn report(available_kb: usize, total_kb: usize) -> (r: GuestMetric)
        ensures
            r is Memory,
            r->Memory_0.mem_free == available_kb,
            r->Memory_0.mem_total == total_kb,
    {
        GuestMetric::Memory(MemoryInfo { mem_free: available_kb, mem_total: total_kb })
    }
}

/// The total memory reported throughout when it is read once at start: a
/// platform without the figure reports none (and zero later), another failure stops the
/// agent.
pub fn initial_mem_total(r: Result<usize, MemoryError>) -> (t: Result<Option<usize>, MemoryError>)
    ensures
        t == match r {
            Ok(kb) => Ok::<Option<usize>, MemoryError>(Some(kb)),
            Err(MemoryError::Unsupported) => Ok::<Option<usize>, MemoryError>(None),
            Err(e) => Err::<Option<usize>, MemoryError>(e),
        },
{
    match r {
        Ok(kb) => Ok(Some(kb)),
        Err(MemoryError::Unsupported) => Ok(None),
        Err(e) => Err(e),
    }
}

/// The report of a tick when the total is read once: the available memory read now, and the total
/// read at start (zero when there was none).
pub fn memory_report_with_total(mem_total: Option<usize>, available_kb: usize) -> (r: GuestMetric)
    ensures
        r is Memory,
        r->Memory_0.mem_free == available_kb,
        r->Memory_0.mem_total == match mem_total {
            Some(t) => t,
            None => 0,
        },
{
    let total = match mem_total {
        Some(t) => t,
        None => 0,
    };
    GuestMetric::Memory(MemoryInfo { mem_free: available_kb, mem_total: total })
}

/// The leading characters of a text up to its first white space.
pub open spec fn take_word(s: Seq<char>) -> Seq<char>
    decreases s.len(),
{
    if s.len() == 0 || is_ws(s[0]) {
        Seq::empty()
    } else {
        seq![s[0]] + take_word(s.skip(1))
    }
}

/// The value of a field of `/proc/meminfo`, whose lines read `<key>: <n> kB`: the
/// number after the first line that starts with the key and a colon (a count that
/// fits in 32 bits).
pub open spec fn meminfo_field(lines: Seq<Seq<char>>, key: Seq<char>) -> Option<u32>
    decreases lines.len(),
{
    if lines.len() == 0 {
        None
    } else if has_prefix(lines[0], key.push(':')) {
        parse_u32_spec(take_word(trim_spec(lines[0].skip(key.len() as int + 1))))
    } else {
        meminfo_field(lines.skip(1), key)
    }
}

fn word_of(s: &Vec<char>) -> (r: Vec<char>)
    ensures
        r@ == take_word(s@),
{
    let mut r: Vec<char> = Vec::new();
    let mut i: usize = 0;
    assert(s@.skip(0) =~= s@);
    assert(r@ + take_word(s@.skip(0)) =~= take_word(s@));
    while i < s.len() && !is_whitespace(s[i])
        invariant
            i <= s.len(),
            r@ + take_word(s@.skip(i as int)) == take_word(s@),
        decreases s.len() - i,
    {
        let ghost rest = s@.skip(i as int);
        assert(rest[0] == s@[i as int]);
        assert(rest.skip(1) =~= s@.skip(i + 1));
        r.push(s[i]);
        assert(r@ + take_word(s@.skip(i + 1)) =~= take_word(s@));
        i = i + 1;
    }
    let ghost rest = s@.skip(i as int);
    assert(take_word(rest) =~= Seq::<char>::empty()) by {
        if rest.len() > 0 {
            assert(rest[0] == s@[i as int]);
        }
    }
    assert(r@ =~= take_word(s@));
    r
}

/// The value of a field of the memory figures of Linux (`/proc/meminfo`), in kilobytes.
pub fn meminfo_kb(text: &str, key: &str) -> (r: Option<u32>)
    ensures
        r == meminfo_field(lines_of(text@), key@),
{
    let cs = chars_of(text);
    let lines = split_lines(&cs);
    let mut prefix = chars_of(key);
    prefix.push(':');
    let ghost ls = lines_of(text@);
    let mut i: usize = 0;
    assert(ls.skip(0) =~= ls);
    while i < lines.len()
        invariant
            i <= lines.len(),
            nested_view(lines@) == ls,
            ls == lines_of(text@),
            prefix@ == key@.push(':'),
            meminfo_field(ls.skip(i as int), key@) == meminfo_field(ls, key@),
        decreases lines.len() - i,
    {
        let ghost rest = ls.skip(i as int);
        assert(rest[0] == lines@[i as int]@);
        assert(rest.skip(1) =~= ls.skip(i + 1));
        if starts_with(&lines[i], &prefix) {
            let after = skip_chars(&lines[i], prefix.len());
            let t = trim(&after);
            let w = word_of(&t);
            assert(after@ == rest[0].skip(key@.len() as int + 1));
            assert(has_prefix(rest[0], key@.push(':')));
            assert(meminfo_field(rest, key@) == parse_u32_spec(w@));
            return parse_u32_chars(&w);
        }
        i = i + 1;
    }
    None
}

/// The periodic report of the operating system (see `os::collect_os_info`).
pub struct OsInfoPlugin;

/// The network collector of a platform that follows no interface: it finds none.
pub struct DummyNetworkSource;

impl DummyNetworkSource {
    pub fn collect_current(&self) -> (r: Vec<GuestMetric>)
        ensures
            r@.len() == 0,
    {
        Vec::new()
    }
}

/// Log lines for the Windows debugger: each carries the agent's prefix.
pub struct WindowsDebugLogger {
    pub prefix: String,
}

/// `<prefix> <level>: <message>` and a CR LF.
pub open spec fn debug_line(prefix: Seq<char>, level: Seq<char>, message: Seq<char>) -> Seq<char> {
    prefix + seq![' '] + level + ": "@ + message + seq!['\r', '\n']
}

impl WindowsDebugLogger {
    /// Whether a record is logged: every one is.
    pub fn enabled(&self) -> (r: bool)
        ensures
            r,
    {
        true
    }

    /// The line that logs a message of a level.
    pub fn format_line(&self, level: &str, message: &str) -> (r: String)
        ensures
            r@ == debug_line(self.prefix@, level@, message@),
    {
        let mut s = self.prefix.clone();
        s.push(' ');
        s.append(level);
        s.append(": ");
        s.append(message);
        s.push('\r');
        s.push('\n');
        assert(s@ =~= debug_line(self.prefix@, level@, message@));
        s
    }
}

} // verus!
