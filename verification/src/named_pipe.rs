//! Book-keeping of the overlapped operations on a Windows named pipe.
//!
//! The system calls are made by the caller; this module decides, from the state of the
//! pipe and the outcome of each call, what the pipe's state becomes and what the
//! operation returns.  An operation in progress is known by the identity of its
//! OVERLAPPED block, which the caller assigns.
use vstd::prelude::*;

verus! {

/// A Win32 error, by its code.
#[derive(Clone, Copy, Debug, PartialEq, Eq, Structural)]
pub struct WinError {
    pub code: u32,
}

/// An overlapped operation was started and is still in progress.
pub const ERROR_IO_PENDING: u32 = 997;

/// A client connected to the pipe before the server waited for one.
pub const ERROR_PIPE_CONNECTED: u32 = 535;

/// Not enough memory (also: a message or a write queue over its limit).
pub const ERROR_NOT_ENOUGH_MEMORY: u32 = 8;

/// An operation in progress: its OVERLAPPED block and its own data.
pub struct Pending<T> {
    pub overlapped: u64,
    pub data: T,
}

/// The slot of one kind of operation: the event it signals, if the pipe is evented,
/// and the operation in progress, if any.
pub struct OperationState<T> {
    event: Option<u64>,
    state: Option<Pending<T>>,
}

impl<T> OperationState<T> {
    pub closed spec fn pending(&self) -> Option<u64> {
        match self.state {
            Some(p) => Some(p.overlapped),
            None => None,
        }
    }

    pub closed spec fn pending_data(&self) -> T {
        self.state->Some_0.data
    }

    pub closed spec fn event_spec(&self) -> Option<u64> {
        self.event
    }

    /// A slot with no operation in progress.
    pub fn new(event: Option<u64>) -> (r: Self)
        ensures
            r.pending() is None,
            r.event_spec() == event,
    {
        OperationState { event, state: None }
    }

    pub fn get_event(&self) -> (r: Option<u64>)
        ensures
            r == self.event_spec(),
    {
        self.event
    }

    /// Whether no operation is in progress.
    pub fn is_none(&self) -> (r: bool)
        ensures
            r == (self.pending() is None),
    {
        self.state.is_none()
    }

    /// Whether the operation in progress is the one of this OVERLAPPED block.
    pub fn matches(&self, overlapped: u64) -> (r: bool)
        ensures
            r == (self.pending() == Some(overlapped)),
    {
        match &self.state {
            Some(p) => p.overlapped == overlapped,
            None => false,
        }
    }

    /// The operation in progress, which is over.
    pub fn take(&mut self) -> (r: Option<Pending<T>>)
        ensures
            final(self).pending() is None,
            final(self).event_spec() == old(self).event_spec(),
            match r {
                Some(p) => old(self).pending() == Some(p.overlapped) && p.data == old(
                    self,
                ).pending_data(),
                None => old(self).pending() is None,
            },
    {
        self.state.take()
    }

    /// Records an operation in progress.
    pub fn put(&mut self, p: Pending<T>)
        ensures
            final(self).pending() == Some(p.overlapped),
            final(self).pending_data() == p.data,
            final(self).event_spec() == old(self).event_spec(),
    {
        self.state = Some(p);
    }
}

/// A read in progress: how many bytes were asked for.
pub struct ReadState {
    pub count: u32,
}

/// A write in progress: the bytes handed to the system.
pub struct WriteState {
    pub buffer: Vec<u8>,
}

/// A wait for a client in progress.
pub struct ConnectState;

/// What a completed operation gave.
pub enum NamedPipeResult {
    Read(Vec<u8>),
    Written(u32),
    Connected,
}

/// How a call that starts an overlapped operation ended: done at once (`Some`), still
/// in progress (`None`), or failed.
pub open spec fn async_result<T>(result: Result<T, WinError>) -> Result<Option<T>, WinError> {
    match result {
        Ok(t) => Ok(Some(t)),
        Err(e) => if e.code == ERROR_IO_PENDING {
            Ok(None)
        } else {
            Err(e)
        },
    }
}

/// The bytes a read gave: the first `count` bytes of its buffer.
pub open spec fn read_bytes(buffer: Seq<u8>, count: u32) -> Seq<u8> {
    buffer.take(count as int)
}

/// What completing a read returns; `buffer` is the read's buffer.
pub open spec fn read_completion(result: Result<u32, WinError>, buffer: Seq<u8>) -> Result<
    Seq<u8>,
    WinError,
> {
    match result {
        Ok(n) => Ok(read_bytes(buffer, n)),
        Err(e) => Err(e),
    }
}

/// The completion of a read may be handed over: the count fits the buffer, and the
/// read is no longer in progress.
pub open spec fn read_completion_ok(result: Result<u32, WinError>, buffer: Seq<u8>) -> bool {
    match result {
        Ok(n) => n <= buffer.len(),
        Err(e) => e.code != ERROR_IO_PENDING,
    }
}

/// The completion of a write or a wait for a client may be handed over: it is no longer
/// in progress.
pub open spec fn completion_ok(result: Result<u32, WinError>) -> bool {
    match result {
        Ok(_) => true,
        Err(e) => e.code != ERROR_IO_PENDING,
    }
}

/// A named pipe: its handle, the operations in progress, whether it was opened for
/// overlapped operations and whether it is the server's end.
pub struct NamedPipe {
    connect_state: OperationState<ConnectState>,
    read_state: OperationState<ReadState>,
    write_state: OperationState<WriteState>,
    handle: u64,
    overlapped: bool,
    server: bool,
}

impl NamedPipe {
    pub closed spec fn read_pending(&self) -> Option<u64> {
        self.read_state.pending()
    }

    pub closed spec fn read_count(&self) -> u32 {
        self.read_state.pending_data().count
    }

    pub closed spec fn write_pending(&self) -> Option<u64> {
        self.write_state.pending()
    }

    pub closed spec fn write_buffer(&self) -> Seq<u8> {
        self.write_state.pending_data().buffer@
    }

    pub closed spec fn connect_pending(&self) -> Option<u64> {
        self.connect_state.pending()
    }

    pub closed spec fn is_overlapped(&self) -> bool {
        self.overlapped
    }

    pub closed spec fn server_spec(&self) -> bool {
        self.server
    }

    pub closed spec fn handle_spec(&self) -> u64 {
        self.handle
    }

    pub closed spec fn read_event(&self) -> Option<u64> {
        self.read_state.event_spec()
    }

    pub closed spec fn write_event(&self) -> Option<u64> {
        self.write_state.event_spec()
    }

    pub closed spec fn connect_event(&self) -> Option<u64> {
        self.connect_state.event_spec()
    }

    /// The pipe of a handle that was just created (`server`) or opened, with no operation
    /// in progress; an evented pipe has one event per kind of operation.
    pub fn new(
        handle: u64,
        overlapped: bool,
        server: bool,
        events: Option<(u64, u64, u64)>,
    ) -> (r: NamedPipe)
        ensures
            r.handle_spec() == handle,
            r.is_overlapped() == overlapped,
            r.server_spec() == server,
            r.read_pending() is None,
            r.write_pending() is None,
            r.connect_pending() is None,
            match events {
                Some((c, rd, w)) => r.connect_event() == Some(c) && r.read_event() == Some(rd)
                    && r.write_event() == Some(w),
                None => r.connect_event() is None && r.read_event() is None && r.write_event() is None,
            },
    {
        let (c, rd, w) = match events {
            Some((c, rd, w)) => (Some(c), Some(rd), Some(w)),
            None => (None, None, None),
        };
        NamedPipe {
            connect_state: OperationState::new(c),
            read_state: OperationState::new(rd),
            write_state: OperationState::new(w),
            handle,
            overlapped,
            server,
        }
    }

    pub fn get_handle(&self) -> (r: u64)
        ensures
            r == self.handle_spec(),
    {
        self.handle
    }

    pub fn get_read_event(&self) -> (r: Option<u64>)
        ensures
            r == self.read_event(),
    {
        self.read_state.get_event()
    }

    pub fn get_write_event(&self) -> (r: Option<u64>)
        ensures
            r == self.write_event(),
    {
        self.write_state.get_event()
    }

    pub fn get_connect_event(&self) -> (r: Option<u64>)
        ensures
            r == self.connect_event(),
    {
        self.connect_state.get_event()
    }

    /// Whether this is the server's end of the pipe.
    pub fn is_server(&self) -> (r: bool)
        ensures
            r == self.server_spec(),
    {
        self.server
    }

    /// How a call that starts an overlapped operation ended.
    pub fn get_async_result<T>(result: Result<T, WinError>) -> (r: Result<Option<T>, WinError>)
        ensures
            r == async_result(result),
    {
        match result {
            Ok(t) => Ok(Some(t)),
            Err(e) => if e.code == ERROR_IO_PENDING {
                Ok(None)
            } else {
                Err(e)
            },
        }
    }

    /// A read of `count` bytes was asked of the system with OVERLAPPED block
    /// `overlapped`, and the call ended as `call`: `Ok(true)` if it is already done,
    /// `Ok(false)` if it is in progress (either way its completion is still to come and
    /// the read is recorded), or the error.
    pub fn begin_read(&mut self, count: u32, overlapped: u64, call: Result<(), WinError>) -> (r:
        Result<bool, WinError>)
        requires
            old(self).is_overlapped(),
            old(self).read_pending() is None,
        ensures
            match async_result(call) {
                Ok(done) => r == Ok::<bool, WinError>(done is Some) && final(self).read_pending()
                    == Some(overlapped) && final(self).read_count() == count,
                Err(e) => r == Err::<bool, WinError>(e) && final(self).read_pending() is None,
            },
            same_pipe_except_read(*old(self), *final(self)),
    {
        match Self::get_async_result(call) {
            Ok(done) => {
                self.read_state.put(Pending { overlapped, data: ReadState { count } });
                Ok(done.is_some())
            },
            Err(e) => Err(e),
        }
    }

    fn complete_read(&mut self, result: Result<u32, WinError>, buffer: &Vec<u8>) -> (r: Result<
        Vec<u8>,
        WinError,
    >)
        requires
            read_completion_ok(result, buffer@),
        ensures
            match r {
                Ok(v) => read_completion(result, buffer@) == Ok::<Seq<u8>, WinError>(v@),
                Err(e) => read_completion(result, buffer@) == Err::<Seq<u8>, WinError>(e),
            },
            final(self).read_pending() is None,
            same_pipe_except_read(*old(self), *final(self)),
    {
        match result {
            Ok(count) => {
                self.read_state.take();
                let mut out: Vec<u8> = Vec::new();
                let mut i: usize = 0;
                while i < count as usize
                    invariant
                        count <= buffer.len(),
                        i <= count,
                        out@ == buffer@.take(i as int),
                    decreases count - i,
                {
                    out.push(buffer[i]);
                    assert(out@ =~= buffer@.take(i + 1));
                    i = i + 1;
                }
                Ok(out)
            },
            Err(e) => {
                self.read_state.take();
                Err(e)
            },
        }
    }

    /// The read in progress is over, as `result` says (the count of bytes read, or the
    /// error); `buffer` is its buffer.  Gives the bytes read.
    pub fn end_read_evented(&mut self, result: Result<u32, WinError>, buffer: &Vec<u8>) -> (r:
        Result<Vec<u8>, WinError>)
        requires
            old(self).read_pending() is Some,
            read_completion_ok(result, buffer@),
        ensures
            match r {
                Ok(v) => read_completion(result, buffer@) == Ok::<Seq<u8>, WinError>(v@),
                Err(e) => read_completion(result, buffer@) == Err::<Seq<u8>, WinError>(e),
            },
            final(self).read_pending() is None,
            same_pipe_except_read(*old(self), *final(self)),
    {
        self.complete_read(result, buffer)
    }

    /// Gives up the read in progress, if any: its OVERLAPPED block is the one whose
    /// operation must be cancelled.
    pub fn cancel_read(&mut self) -> (r: Option<u64>)
        ensures
            r == old(self).read_pending(),
            final(self).read_pending() is None,
            same_pipe_except_read(*old(self), *final(self)),
    {
        match self.read_state.take() {
            Some(p) => Some(p.overlapped),
            None => None,
        }
    }

    /// A write of `data` was asked of the system with OVERLAPPED block `overlapped`, and
    /// the call ended as `call`.
    pub fn begin_write(&mut self, data: &[u8], overlapped: u64, call: Result<(), WinError>) -> (r:
        Result<bool, WinError>)
        requires
            old(self).is_overlapped(),
            old(self).write_pending() is None,
        ensures
            match async_result(call) {
                Ok(done) => r == Ok::<bool, WinError>(done is Some) && final(self).write_pending()
                    == Some(overlapped) && final(self).write_buffer() == data@,
                Err(e) => r == Err::<bool, WinError>(e) && final(self).write_pending() is None,
            },
            same_pipe_except_write(*old(self), *final(self)),
    {
        match Self::get_async_result(call) {
            Ok(done) => {
                let buffer = slice_to_vec(data);
                self.write_state.put(Pending { overlapped, data: WriteState { buffer } });
                Ok(done.is_some())
            },
            Err(e) => Err(e),
        }
    }

    fn complete_write(&mut self, result: Result<u32, WinError>) -> (r: Result<u32, WinError>)
        requires
            completion_ok(result),
        ensures
            r == result,
            final(self).write_pending() is None,
            same_pipe_except_write(*old(self), *final(self)),
    {
        self.write_state.take();
        result
    }

    /// The write in progress is over, as `result` says (the count of bytes written, or
    /// the error).
    pub fn end_write_evented(&mut self, result: Result<u32, WinError>) -> (r: Result<
        u32,
        WinError,
    >)
        requires
            old(self).write_pending() is Some,
            completion_ok(result),
        ensures
            r == result,
            final(self).write_pending() is None,
            same_pipe_except_write(*old(self), *final(self)),
    {
        self.complete_write(result)
    }

    /// Gives up the write in progress, if any.
    pub fn cancel_write(&mut self) -> (r: Option<u64>)
        ensures
            r == old(self).write_pending(),
            final(self).write_pending() is None,
            same_pipe_except_write(*old(self), *final(self)),
    {
        match self.write_state.take() {
            Some(p) => Some(p.overlapped),
            None => None,
        }
    }

    /// The server asked the system to wait for a client with OVERLAPPED block
    /// `overlapped`, and the call failed as `call` (it never succeeds at once):
    /// `Ok(false)` if the wait is in progress, `Ok(true)` if a client is already
    /// connected, or the error.
    pub fn begin_connect(&mut self, overlapped: u64, call: Result<(), WinError>) -> (r: Result<
        bool,
        WinError,
    >)
        requires
            old(self).is_overlapped(),
            old(self).server_spec(),
            old(self).connect_pending() is None,
            call is Err,
        ensures
            r == (if call->Err_0.code == ERROR_IO_PENDING {
                Ok::<bool, WinError>(false)
            } else if call->Err_0.code == ERROR_PIPE_CONNECTED {
                Ok::<bool, WinError>(true)
            } else {
                Err::<bool, WinError>(call->Err_0)
            }),
            final(self).connect_pending() == (if call->Err_0.code == ERROR_IO_PENDING {
                Some(overlapped)
            } else {
                None
            }),
            same_pipe_except_connect(*old(self), *final(self)),
    {
        match call {
            Ok(()) => Ok(true),
            Err(e) => if e.code == ERROR_IO_PENDING {
                self.connect_state.put(Pending { overlapped, data: ConnectState });
                Ok(false)
            } else if e.code == ERROR_PIPE_CONNECTED {
                Ok(true)
            } else {
                Err(e)
            },
        }
    }

    fn complete_connect(&mut self, result: Result<u32, WinError>) -> (r: Result<(), WinError>)
        requires
            completion_ok(result),
            result is Err ==> result->Err_0.code != ERROR_PIPE_CONNECTED,
        ensures
            r == match result {
                Ok(_) => Ok::<(), WinError>(()),
                Err(e) => Err(e),
            },
            final(self).connect_pending() is None,
            same_pipe_except_connect(*old(self), *final(self)),
    {
        self.connect_state.take();
        match result {
            Ok(_) => Ok(()),
            Err(e) => Err(e),
        }
    }

    /// The wait for a client is over, as `result` says.
    pub fn end_connect_evented(&mut self, result: Result<u32, WinError>) -> (r: Result<
        (),
        WinError,
    >)
        requires
            old(self).connect_pending() is Some,
            completion_ok(result),
            result is Err ==> result->Err_0.code != ERROR_PIPE_CONNECTED,
        ensures
            r == match result {
                Ok(_) => Ok::<(), WinError>(()),
                Err(e) => Err(e),
            },
            final(self).connect_pending() is None,
            same_pipe_except_connect(*old(self), *final(self)),
    {
        self.complete_connect(result)
    }

    /// Gives up the wait for a client, if any.
    pub fn cancel_connect(&mut self) -> (r: Option<u64>)
        ensures
            r == old(self).connect_pending(),
            final(self).connect_pending() is None,
            same_pipe_except_connect(*old(self), *final(self)),
    {
        match self.connect_state.take() {
            Some(p) => Some(p.overlapped),
            None => None,
        }
    }

    /// Gives up every operation in progress: their OVERLAPPED blocks, in the order read,
    /// write, wait for a client.
    pub fn cancel_all_io_silent(&mut self) -> (r: Vec<u64>)
        ensures
            r@ == opt_seq(old(self).read_pending()) + opt_seq(old(self).write_pending()) + opt_seq(
                old(self).connect_pending(),
            ),
            final(self).read_pending() is None,
            final(self).write_pending() is None,
            final(self).connect_pending() is None,
            final(self).is_overlapped() == old(self).is_overlapped(),
            final(self).server_spec() == old(self).server_spec(),
            final(self).handle_spec() == old(self).handle_spec(),
    {
        let mut out: Vec<u64> = Vec::new();
        if let Some(o) = self.cancel_read() {
            out.push(o);
        }
        if let Some(o) = self.cancel_write() {
            out.push(o);
        }
        if let Some(o) = self.cancel_connect() {
            out.push(o);
        }
        assert(out@ =~= opt_seq(old(self).read_pending()) + opt_seq(old(self).write_pending())
            + opt_seq(old(self).connect_pending()));
        out
    }

    /// Before the server disconnects its client: an evented pipe gives up every
    /// operation in progress (their OVERLAPPED blocks are returned, to cancel); the caller
    /// then disconnects the handle.
    pub fn disconnect(&mut self) -> (r: Vec<u64>)
        requires
            old(self).server_spec(),
        ensures
            old(self).read_event() is Some ==> r@ == opt_seq(old(self).read_pending()) + opt_seq(
                old(self).write_pending(),
            ) + opt_seq(old(self).connect_pending()) && final(self).read_pending() is None
                && final(self).write_pending() is None && final(self).connect_pending() is None,
            old(self).read_event() is None ==> r@.len() == 0 && *final(self) == *old(self),
            final(self).server_spec(),
            final(self).handle_spec() == old(self).handle_spec(),
    {
        if self.get_read_event().is_some() {
            self.cancel_all_io_silent()
        } else {
            Vec::new()
        }
    }

    /// An overlapped operation completed with OVERLAPPED block `overlapped`, as `result`
    /// says; `read_buffer` is the buffer of a read.  It must be the operation in progress
    /// of one kind; what it gave is returned.
    pub fn complete_io(&mut self, overlapped: u64, result: Result<u32, WinError>, read_buffer: &Vec<u8>) -> (r:
        Result<NamedPipeResult, WinError>)
        requires
            old(self).read_pending() == Some(overlapped) || old(self).write_pending() == Some(
                overlapped,
            ) || old(self).connect_pending() == Some(overlapped),
            old(self).read_pending() == Some(overlapped) ==> read_completion_ok(result, read_buffer@),
            completion_ok(result),
            old(self).read_pending() != Some(overlapped) && old(self).write_pending() != Some(
                overlapped,
            ) ==> (result is Err ==> result->Err_0.code != ERROR_PIPE_CONNECTED),
        ensures
            old(self).read_pending() == Some(overlapped) ==> final(self).read_pending() is None
                && same_pipe_except_read(*old(self), *final(self)) && match r {
                Ok(NamedPipeResult::Read(v)) => read_completion(result, read_buffer@) == Ok::<
                    Seq<u8>,
                    WinError,
                >(v@),
                Ok(_) => false,
                Err(e) => result == Err::<u32, WinError>(e),
            },
            old(self).read_pending() != Some(overlapped) && old(self).write_pending() == Some(
                overlapped,
            ) ==> final(self).write_pending() is None && same_pipe_except_write(
                *old(self),
                *final(self),
            ) && match r {
                Ok(NamedPipeResult::Written(n)) => result == Ok::<u32, WinError>(n),
                Ok(_) => false,
                Err(e) => result == Err::<u32, WinError>(e),
            },
            old(self).read_pending() != Some(overlapped) && old(self).write_pending() != Some(
                overlapped,
            ) ==> final(self).connect_pending() is None && same_pipe_except_connect(
                *old(self),
                *final(self),
            ) && match r {
                Ok(NamedPipeResult::Connected) => result is Ok,
                Ok(_) => false,
                Err(e) => result == Err::<u32, WinError>(e),
            },
    {
        if self.read_state.matches(overlapped) {
            match self.complete_read(result, read_buffer) {
                Ok(v) => Ok(NamedPipeResult::Read(v)),
                Err(e) => Err(e),
            }
        } else if self.write_state.matches(overlapped) {
            match self.complete_write(result) {
                Ok(n) => Ok(NamedPipeResult::Written(n)),
                Err(e) => Err(e),
            }
        } else {
            match self.complete_connect(result) {
                Ok(()) => Ok(NamedPipeResult::Connected),
                Err(e) => Err(e),
            }
        }
    }
}

/// The element of an option, as a sequence of at most one.
pub open spec fn opt_seq(o: Option<u64>) -> Seq<u64> {
    match o {
        Some(x) => seq![x],
        None => Seq::empty(),
    }
}

/// Everything but the read slot is unchanged.
pub open spec fn same_pipe_except_read(a: NamedPipe, b: NamedPipe) -> bool {
    &&& b.write_pending() == a.write_pending()
    &&& b.write_buffer() == a.write_buffer()
    &&& b.connect_pending() == a.connect_pending()
    &&& b.is_overlapped() == a.is_overlapped()
    &&& b.server_spec() == a.server_spec()
    &&& b.handle_spec() == a.handle_spec()
    &&& b.read_event() == a.read_event()
    &&& b.write_event() == a.write_event()
    &&& b.connect_event() == a.connect_event()
}

/// Everything but the write slot is unchanged.
pub open spec fn same_pipe_except_write(a: NamedPipe, b: NamedPipe) -> bool {
    &&& b.read_pending() == a.read_pending()
    &&& b.read_count() == a.read_count()
    &&& b.connect_pending() == a.connect_pending()
    &&& b.is_overlapped() == a.is_overlapped()
    &&& b.server_spec() == a.server_spec()
    &&& b.handle_spec() == a.handle_spec()
    &&& b.read_event() == a.read_event()
    &&& b.write_event() == a.write_event()
    &&& b.connect_event() == a.connect_event()
}

/// Everything but the slot of the wait for a client is unchanged.
pub open spec fn same_pipe_except_connect(a: NamedPipe, b: NamedPipe) -> bool {
    &&& b.read_pending() == a.read_pending()
    &&& b.read_count() == a.read_count()
    &&& b.write_pending() == a.write_pending()
    &&& b.write_buffer() == a.write_buffer()
    &&& b.is_overlapped() == a.is_overlapped()
    &&& b.server_spec() == a.server_spec()
    &&& b.handle_spec() == a.handle_spec()
    &&& b.read_event() == a.read_event()
    &&& b.write_event() == a.write_event()
    &&& b.connect_event() == a.connect_event()
}

/// A copy of bytes.
pub fn slice_to_vec(data: &[u8]) -> (r: Vec<u8>)
    ensures
        r@ == data@,
{
    let mut r: Vec<u8> = Vec::new();
    let mut i: usize = 0;
    while i < data.len()
        invariant
            i <= data.len(),
            r@ == data@.take(i as int),
        decreases data.len() - i,
    {
        r.push(data[i]);
        assert(r@ =~= data@.take(i + 1));
        i = i + 1;
    }
    assert(r@ =~= data@);
    r
}

} // verus!
