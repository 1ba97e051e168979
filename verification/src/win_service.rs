//! The Windows side of the agent: the clipboard service's worker and plugin, the
//! single-instance mutex of the clipboard agent and the service control decisions.
use vstd::prelude::*;
use std::collections::HashMap;
use crate::named_pipe::WinError;
use crate::pipe_talker::{queue_step, PipeTalker, WritePhase};

verus! {

/// No session.
pub const INVALID_SESSION_ID: u32 = 0xffff_ffff;

/// The file (here: the client of a session) was not found.
pub const ERROR_FILE_NOT_FOUND: u32 = 2;

/// The object already existed.
pub const ERROR_ALREADY_EXISTS: u32 = 183;

/// The call succeeded.
pub const ERROR_SUCCESS: u32 = 0;

/// A parameter was wrong.
pub const ERROR_INVALID_PARAMETER: u32 = 87;

/// The largest message the clipboard pipe carries.
pub const MAX_MESSAGE_SIZE: u32 = 65535;

/// The most bytes queued for writing on the clipboard pipe.
pub const MAX_WRITE_QUEUE_SIZE: u32 = 262143;

/// What a completion packet of the worker's port is about, by its key.
#[derive(Clone, Copy, Debug, PartialEq, Eq, Structural)]
pub enum CompletionKey {
    /// The pipe instance waiting for a new client.
    FreeClient,
    /// The host set the clipboard.
    SetClipboard,
    /// The service stops.
    Stop,
    /// The client of a session.
    Client(u32),
}

/// The key of each kind of packet: the three largest keys are the worker's own, any
/// other is a session id.
pub open spec fn key_kind(key: u64) -> CompletionKey {
    if key == u64::MAX {
        CompletionKey::FreeClient
    } else if key == u64::MAX - 1 {
        CompletionKey::SetClipboard
    } else if key == u64::MAX - 2 {
        CompletionKey::Stop
    } else {
        CompletionKey::Client(key as u32)
    }
}

/// What a completion key is about.
pub fn completion_key(key: u64) -> (r: CompletionKey)
    ensures
        r == key_kind(key),
{
    if key == u64::MAX {
        CompletionKey::FreeClient
    } else if key == u64::MAX - 1 {
        CompletionKey::SetClipboard
    } else if key == u64::MAX - 2 {
        CompletionKey::Stop
    } else {
        CompletionKey::Client(key as u32)
    }
}

/// The session attached to the console, given what the system answered: no session is
/// an error.
pub fn active_session(raw: u32) -> (r: Result<u32, WinError>)
    ensures
        r == if raw == INVALID_SESSION_ID {
            Err::<u32, WinError>(WinError { code: ERROR_FILE_NOT_FOUND })
        } else {
            Ok::<u32, WinError>(raw)
        },
{
    if raw == INVALID_SESSION_ID {
        Err(WinError { code: ERROR_FILE_NOT_FOUND })
    } else {
        Ok(raw)
    }
}

/// Whether text read from the client of key `key` goes to the host: only that of the
/// console's session does.
pub fn forward_client_read(active: Result<u32, WinError>, key: u64) -> (r: bool)
    ensures
        r == (active is Ok && active->Ok_0 as u64 == key),
{
    match active {
        Ok(a) => a as u64 == key,
        Err(_) => false,
    }
}

/// Of the clipboard contents the host set since the last look, only the last one is
/// applied.
pub fn latest_host_message(messages: Vec<Vec<u8>>) -> (r: Option<Vec<u8>>)
    ensures
        match r {
            Some(m) => messages@.len() > 0 && m == messages@.last(),
            None => messages@.len() == 0,
        },
{
    let mut messages = messages;
    messages.pop()
}

/// The clipboard service's registry of pipe instances: the one waiting for a client,
/// and those connected, by the client's session.
pub struct WindowsClipboardWorker {
    free_client: Option<PipeTalker>,
    clients: HashMap<u32, PipeTalker>,
}

impl WindowsClipboardWorker {
    pub closed spec fn sessions(&self) -> Map<u32, PipeTalker> {
        self.clients@
    }

    pub closed spec fn free(&self) -> Option<PipeTalker> {
        self.free_client
    }

    /// A worker with no pipe instance yet.
    pub fn new() -> (r: WindowsClipboardWorker)
        ensures
            r.sessions() == Map::<u32, PipeTalker>::empty(),
            r.free() is None,
    {
        WindowsClipboardWorker { free_client: None, clients: HashMap::new() }
    }

    /// Whether a new pipe instance must wait for clients (one waits at all times).
    pub fn needs_free_client(&self) -> (r: bool)
        ensures
            r == (self.free() is None),
    {
        self.free_client.is_none()
    }

    /// The pipe instance that waits for a client from now on.
    pub fn set_free_client(&mut self, client: PipeTalker)
        ensures
            final(self).free() == Some(client),
            final(self).sessions() == old(self).sessions(),
    {
        self.free_client = Some(client);
    }

    /// The pipe instance waiting for a client, which got one or failed.
    pub fn take_free_client(&mut self) -> (r: Option<PipeTalker>)
        ensures
            r == old(self).free(),
            final(self).free() is None,
            final(self).sessions() == old(self).sessions(),
    {
        self.free_client.take()
    }

    /// A client connected from session `sid`: its pipe instance is the session's from
    /// now on (in place of an earlier one).
    pub fn add_client(&mut self, sid: u32, client: PipeTalker)
        ensures
            final(self).sessions() == old(self).sessions().insert(sid, client),
            final(self).free() == old(self).free(),
    {
        broadcast use vstd::std_specs::hash::group_hash_axioms;
        self.clients.insert(sid, client);
    }

    /// The pipe instance of a session, taken out to work on it (`add_client` puts it
    /// back).
    pub fn take_client(&mut self, sid: u32) -> (r: Option<PipeTalker>)
        ensures
            r == if old(self).sessions().contains_key(sid) {
                Some(old(self).sessions()[sid])
            } else {
                None::<PipeTalker>
            },
            final(self).sessions() == old(self).sessions().remove(sid),
            final(self).free() == old(self).free(),
    {
        broadcast use vstd::std_specs::hash::group_hash_axioms;
        self.clients.remove(&sid)
    }

    /// An operation failed on the pipe instance of a packet's key: the instance is dropped.
    /// (A failure is never that of the host setting the clipboard.)
    pub fn drop_failed(&mut self, failed_key: u64)
        requires
            key_kind(failed_key) != CompletionKey::SetClipboard,
        ensures
            match key_kind(failed_key) {
                CompletionKey::FreeClient => final(self).free() is None && final(self).sessions()
                    == old(self).sessions(),
                CompletionKey::Client(sid) => final(self).sessions() == old(self).sessions().remove(
                    sid,
                ) && final(self).free() == old(self).free(),
                _ => final(self).sessions() == old(self).sessions() && final(self).free() == old(
                    self,
                ).free(),
            },
    {
        broadcast use vstd::std_specs::hash::group_hash_axioms;
        match completion_key(failed_key) {
            CompletionKey::FreeClient => {
                self.free_client = None;
            },
            CompletionKey::Client(sid) => {
                self.clients.remove(&sid);
            },
            _ => {},
        }
    }

    /// The end of one turn of the worker's loop, once the packet of key `key` was handled
    /// with outcome `result`: a failure drops the pipe instance it happened on (the
    /// instance waiting for a client, the client of the packet's session, or, for host
    /// clipboard contents, the client of the session `Err` names), and the loop goes on
    /// unless the packet asked the service to stop, in which case nothing is dropped.
    pub fn finish_packet(&mut self, key: u64, result: Result<(), u32>) -> (go_on: bool)
        ensures
            go_on == !(key_kind(key) is Stop),
            match (key_kind(key), result) {
                (CompletionKey::FreeClient, Err(_)) => final(self).free() is None
                    && final(self).sessions() == old(self).sessions(),
                (CompletionKey::Client(sid), Err(_)) => final(self).sessions() == old(
                    self,
                ).sessions().remove(sid) && final(self).free() == old(self).free(),
                (CompletionKey::SetClipboard, Err(sid)) => final(self).sessions() == old(
                    self,
                ).sessions().remove(sid) && final(self).free() == old(self).free(),
                _ => final(self).sessions() == old(self).sessions() && final(self).free() == old(
                    self,
                ).free(),
            },
    {
        broadcast use vstd::std_specs::hash::group_hash_axioms;
        match completion_key(key) {
            CompletionKey::Stop => false,
            CompletionKey::FreeClient => {
                if result.is_err() {
                    self.free_client = None;
                }
                true
            },
            CompletionKey::Client(sid) => {
                if result.is_err() {
                    self.clients.remove(&sid);
                }
                true
            },
            CompletionKey::SetClipboard => {
                match result {
                    Err(sid) => {
                        self.clients.remove(&sid);
                    },
                    Ok(()) => {},
                }
                true
            },
        }
    }

    /// Host clipboard contents go to the client of the console's session (`active_raw`,
    /// as the system answered): the message is queued on its pipe, and the bytes to
    /// write are returned if a write must start.  Without such a client, or when the
    /// message cannot be queued, the failure is returned with the session, and a client
    /// that failed is dropped.
    pub fn send_host_msg_to_client(&mut self, active_raw: u32, msg: &[u8]) -> (r: (
        u32,
        Result<Option<Vec<u8>>, WinError>,
    ))
        requires
            old(self).sessions().contains_key(active_raw) ==> old(self).sessions()[active_raw].wf()
                && !(old(self).sessions()[active_raw].write_phase() is Error),
        ensures
            r.0 == active_raw,
            final(self).free() == old(self).free(),
            final(self).sessions().remove(active_raw) == old(self).sessions().remove(active_raw),
            !old(self).sessions().contains_key(active_raw) ==> r.1 == Err::<
                Option<Vec<u8>>,
                WinError,
            >(WinError { code: ERROR_FILE_NOT_FOUND }) && !final(self).sessions().contains_key(
                active_raw,
            ),
            old(self).sessions().contains_key(active_raw) ==> ({
                let c = old(self).sessions()[active_raw];
                let b = match c.write_phase() {
                    WritePhase::Queued(b) => b,
                    WritePhase::Pending(b) => b,
                    WritePhase::Error => Seq::empty(),
                };
                match queue_step(b, Some(msg@), c.max_message(), c.max_queue()) {
                    Err(e) => r.1 == Err::<Option<Vec<u8>>, WinError>(e)
                        && !final(self).sessions().contains_key(active_raw),
                    Ok(nb) => r.1 is Ok && final(self).sessions().contains_key(active_raw) && ({
                        let d = final(self).sessions()[active_raw];
                        &&& d.wf()
                        &&& d.write_phase() == if nb.len() == 0 {
                            WritePhase::Queued(nb)
                        } else {
                            WritePhase::Pending(nb)
                        }
                        &&& d.pipe_spec() == c.pipe_spec()
                        &&& d.read_phase() == c.read_phase()
                        &&& match r.1->Ok_0 {
                            Some(w) => c.write_phase() is Queued && w@ == nb,
                            None => c.write_phase() is Pending || nb.len() == 0,
                        }
                    }),
                }
            }),
    {
        broadcast use vstd::std_specs::hash::group_hash_axioms;
        let active = Self::host_message_target(active_raw);
        match self.clients.remove(&active) {
            Some(mut client) => {
                let r = client.queue_write(Some(msg));
                match r {
                    Ok(w) => {
                        self.clients.insert(active, client);
                        assert(self.sessions().remove(active_raw) =~= old(self).sessions().remove(
                            active_raw,
                        ));
                        (active, Ok(w))
                    },
                    Err(e) => {
                        assert(self.sessions().remove(active_raw) =~= old(self).sessions().remove(
                            active_raw,
                        ));
                        (active, Err(e))
                    },
                }
            },
            None => {
                assert(self.sessions().remove(active_raw) =~= old(self).sessions().remove(
                    active_raw,
                ));
                (active, Err(WinError { code: ERROR_FILE_NOT_FOUND }))
            },
        }
    }

    /// The session that host clipboard contents go to: the console's, or none.
    pub fn host_message_target(active_raw: u32) -> (r: u32)
        ensures
            r == active_raw,
    {
        match active_session(active_raw) {
            Ok(a) => a,
            Err(_) => INVALID_SESSION_ID,
        }
    }
}

/// The lines the host sets, one at a time, until an empty one ends the text.
pub struct WindowsClipboardPlugin {
    lines: Vec<String>,
}

/// The text of lines, each ended by CR LF.
pub open spec fn crlf_text(lines: Seq<Seq<char>>) -> Seq<char>
    decreases lines.len(),
{
    if lines.len() == 0 {
        Seq::empty()
    } else {
        crlf_text(lines.drop_last()) + lines.last() + seq!['\r', '\n']
    }
}

impl WindowsClipboardPlugin {
    pub closed spec fn pending_lines(&self) -> Seq<Seq<char>> {
        self.lines@.map_values(|l: String| l@)
    }

    /// A plugin with no line yet.
    pub fn new() -> (r: WindowsClipboardPlugin)
        ensures
            r.pending_lines() == Seq::<Seq<char>>::empty(),
    {
        let r = WindowsClipboardPlugin { lines: Vec::new() };
        assert(r.pending_lines() =~= Seq::<Seq<char>>::empty());
        r
    }

    /// The host set a line (`data/set_clipboard`, read as empty when it could not be
    /// read): a line is kept; an empty one gives the text of the kept lines, each ended by
    /// CR LF, for the guest's clipboard, and starts over.
    pub fn on_set_clipboard(&mut self, xs_data: String) -> (r: Option<String>)
        ensures
            if xs_data@.len() == 0 {
                r is Some && r->Some_0@ == crlf_text(old(self).pending_lines())
                    && final(self).pending_lines() == Seq::<Seq<char>>::empty()
            } else {
                r is None && final(self).pending_lines() == old(self).pending_lines().push(
                    xs_data@,
                )
            },
    {
        if xs_data.as_str().is_empty() {
            let mut multiline = String::new();
            let mut i: usize = 0;
            let ghost ls = self.pending_lines();
            while i < self.lines.len()
                invariant
                    i <= self.lines.len(),
                    ls == self.lines@.map_values(|l: String| l@),
                    multiline@ == crlf_text(ls.take(i as int)),
                decreases self.lines.len() - i,
            {
                multiline.append(self.lines[i].as_str());
                multiline.append("\r\n");
                proof {
                    reveal_strlit("\r\n");
                    assert(ls.take(i + 1).drop_last() =~= ls.take(i as int));
                    assert(ls.take(i + 1).last() == self.lines@[i as int]@);
                }
                assert(multiline@ =~= crlf_text(ls.take(i + 1)));
                i = i + 1;
            }
            assert(ls.take(self.lines.len() as int) =~= ls);
            self.lines = Vec::new();
            assert(self.pending_lines() =~= Seq::<Seq<char>>::empty());
            Some(multiline)
        } else {
            let ghost before = self.pending_lines();
            let ghost l = xs_data@;
            self.lines.push(xs_data);
            assert(self.pending_lines() =~= before.push(l));
            None
        }
    }
}

/// The single-instance mutex of the clipboard agent, held while it runs.
pub struct NamedMutexGuard {
    handle: u64,
}

impl NamedMutexGuard {
    pub closed spec fn handle_spec(&self) -> u64 {
        self.handle
    }

    /// The mutex was created, and the thread's last error tells whether it existed
    /// already: then another instance runs and there is no guard; otherwise this
    /// instance holds it.
    pub fn new(handle: u64, last_error: u32) -> (r: Option<NamedMutexGuard>)
        requires
            last_error == ERROR_SUCCESS || last_error == ERROR_ALREADY_EXISTS,
        ensures
            match r {
                Some(g) => last_error == ERROR_SUCCESS && g.handle_spec() == handle,
                None => last_error == ERROR_ALREADY_EXISTS,
            },
    {
        if last_error == ERROR_SUCCESS {
            Some(NamedMutexGuard { handle })
        } else {
            None
        }
    }
}

/// A control request of the service manager.
#[derive(Clone, Copy, Debug, PartialEq, Eq, Structural)]
pub enum ServiceControl {
    Stop,
    Interrogate,
    Other,
}

/// How the service answers a control request.
#[derive(Clone, Copy, Debug, PartialEq, Eq, Structural)]
pub enum ServiceControlHandlerResult {
    NoError,
    NotImplemented,
}

/// The answer to a control request, and whether the agent must stop: a stop request
/// stops it, an interrogation is answered, the rest is not implemented.
pub fn on_service_control(control: ServiceControl) -> (r: (bool, ServiceControlHandlerResult))
    ensures
        r == match control {
            ServiceControl::Stop => (true, ServiceControlHandlerResult::NoError),
            ServiceControl::Interrogate => (false, ServiceControlHandlerResult::NoError),
            ServiceControl::Other => (false, ServiceControlHandlerResult::NotImplemented),
        },
{
    match control {
        ServiceControl::Stop => (true, ServiceControlHandlerResult::NoError),
        ServiceControl::Interrogate => (false, ServiceControlHandlerResult::NoError),
        ServiceControl::Other => (false, ServiceControlHandlerResult::NotImplemented),
    }
}

/// The exit code the service reports when it stops: success if the agent ended well.
pub fn service_exit_code(ok: bool) -> (r: u32)
    ensures
        r == if ok {
            ERROR_SUCCESS
        } else {
            ERROR_INVALID_PARAMETER
        },
{
    if ok {
        ERROR_SUCCESS
    } else {
        ERROR_INVALID_PARAMETER
    }
}

} // verus!
