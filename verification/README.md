# xen-guest-agent

A guest agent for Xen virtual machines: it collects what the guest knows about itself
(operating system, kernel, memory, network interfaces, clipboard) and publishes it in
xenstore for the toolstack, or prints it on the console.

The decisions of the agent are a library verified with Verus (`src/`). The program
around it (`app/`) is the Linux agent: it reads the system, xenstore and netlink, and
performs what the library decides. The Windows side (the clipboard service and the
per-session clipboard agent) is library only here: its decisions are verified in `src/`,
and no program in this crate runs them, as that needs the Win32 API.

## Layout

- `src/metrics.rs`: the metrics that collectors hand to publishers.
- `src/simple_net.rs`, `src/netlink.rs`, `src/netlink_cache.rs`: network collectors
  (periodic snapshots, route-netlink messages, and the cache-based variant).
- `src/vif.rs`: telling VIFs (FreeBSD names, Linux sysfs, MAC addresses in xenstore).
- `src/xs_std.rs`, `src/xs_rfc.rs`, `src/cache_publish.rs`, `src/console.rs`:
  publishers; the xenstore ones return the operations to perform (`src/xs_request.rs`).
- `src/report_text.rs`: clipboard text as it is reported in xenstore.
- `src/named_pipe.rs`, `src/pipe_talker.rs`, `src/wait.rs`, `src/win_clipboard.rs`,
  `src/win_service.rs`, `src/win_app.rs`: the Windows clipboard service and agent
  (overlapped pipe book-keeping, message framing, UTF-16 text, event-loop decisions).
- `src/os.rs`, `src/agent.rs`: system information and the agent's plumbing decisions.
- `src/text.rs`, `src/ip.rs`: text helpers and address formatting.

Each public function states its result in its contract; the proof functions named
`lemma_*` state properties across functions (address slots stay stable, message frames
read back whole, UTF-16 text round-trips, snapshots converge).
