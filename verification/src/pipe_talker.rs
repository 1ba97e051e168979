//! Messages over a named pipe: each is sent as its length (a 32-bit little-endian
//! number, the byte order of the machines the pipe runs on) followed by its bytes; a
//! length of zero is a ping and carries no message.
//!
//! As in `named_pipe`, the system calls are the caller's: a method that stands for one
//! takes the call's outcome.
use vstd::prelude::*;
use crate::named_pipe::{
    async_result, completion_ok, read_bytes, read_completion, read_completion_ok,
    same_pipe_except_connect, same_pipe_except_read, same_pipe_except_write, NamedPipe,
    NamedPipeResult, WinError, ERROR_IO_PENDING, ERROR_NOT_ENOUGH_MEMORY, ERROR_PIPE_CONNECTED,
};

verus! {

/// Where reading stands.
pub enum PipeTalkerReadState {
    /// No read in progress, and none expected.
    Ready,
    /// A read of the length in progress: bytes still to come, bytes already read.
    PendingSized(u32, Vec<u8>),
    /// The length is known: bytes of the message to read, none read yet.
    WaitingForData(u32, Vec<u8>),
    /// A read of the message in progress: bytes still to come, bytes already read.
    PendingData(u32, Vec<u8>),
    Error,
}

/// Where writing stands.
pub enum PipeTalkerWriteState {
    /// No write in progress; bytes not yet written.
    Queued(Vec<u8>),
    /// A write in progress; bytes not yet known to be written.
    Pending(Vec<u8>),
    Error,
}

/// Where waiting for a client stands.
#[derive(Clone, Copy, Debug, PartialEq, Eq, Structural)]
pub enum PipeTalkerConnectState {
    Ready,
    Pending,
    Error,
}

/// Abstract value of a `PipeTalkerReadState`.
pub enum ReadPhase {
    Ready,
    PendingSized(u32, Seq<u8>),
    WaitingForData(u32, Seq<u8>),
    PendingData(u32, Seq<u8>),
    Error,
}

/// Abstract value of a `PipeTalkerWriteState`.
pub enum WritePhase {
    Queued(Seq<u8>),
    Pending(Seq<u8>),
    Error,
}

impl View for PipeTalkerReadState {
    type V = ReadPhase;

    open spec fn view(&self) -> ReadPhase {
        match self {
            PipeTalkerReadState::Ready => ReadPhase::Ready,
            PipeTalkerReadState::PendingSized(r, d) => ReadPhase::PendingSized(*r, d@),
            PipeTalkerReadState::WaitingForData(r, d) => ReadPhase::WaitingForData(*r, d@),
            PipeTalkerReadState::PendingData(r, d) => ReadPhase::PendingData(*r, d@),
            PipeTalkerReadState::Error => ReadPhase::Error,
        }
    }
}

impl View for PipeTalkerWriteState {
    type V = WritePhase;

    open spec fn view(&self) -> WritePhase {
        match self {
            PipeTalkerWriteState::Queued(b) => WritePhase::Queued(b@),
            PipeTalkerWriteState::Pending(b) => WritePhase::Pending(b@),
            PipeTalkerWriteState::Error => WritePhase::Error,
        }
    }
}

/// What may come of an asynchronous operation.
pub enum PipeAsyncResult<T> {
    Message(T),
    More,
    Blocked,
}

/// What a completed operation of a talker gave.
pub enum PipeTalkerResult {
    Read(Option<Vec<u8>>),
    Written,
    Connected,
}

/// The four little-endian bytes of a length.
pub open spec fn le_bytes(n: u32) -> Seq<u8> {
    seq![
        (n % 256) as u8,
        ((n / 256) % 256) as u8,
        ((n / 65536) % 256) as u8,
        (n / 16777216) as u8,
    ]
}

/// The number that four little-endian bytes stand for.
pub open spec fn le_value(b: Seq<u8>) -> int {
    b[0] + b[1] * 256 + b[2] * 65536 + b[3] * 16777216
}

/// What is sent for a message: its length, then its bytes.
pub open spec fn frame(m: Seq<u8>) -> Seq<u8> {
    le_bytes(m.len() as u32) + m
}

pub proof fn lemma_le_round_trip(n: u32)
    ensures
        le_value(le_bytes(n)) == n,
{
    assert(le_value(le_bytes(n)) == n) by (nonlinear_arith);
}

/// The phase after a read of the length gave `new`: more bytes are awaited, or the
/// length is complete; a zero length is a ping and reading starts over, a length over
/// `max` is refused.
pub open spec fn size_step(remain: u32, data: Seq<u8>, new: Seq<u8>, max: u32) -> Result<
    ReadPhase,
    WinError,
> {
    if new.len() < remain {
        Ok(ReadPhase::PendingSized((remain - new.len()) as u32, data + new))
    } else {
        let n = le_value(data + new);
        if n == 0 {
            Ok(ReadPhase::Ready)
        } else if n > max {
            Err(WinError { code: ERROR_NOT_ENOUGH_MEMORY })
        } else {
            Ok(ReadPhase::WaitingForData(n as u32, Seq::empty()))
        }
    }
}

/// The phase after a read of the message gave `new`, and the message if it is complete.
pub open spec fn data_step(remain: u32, data: Seq<u8>, new: Seq<u8>) -> (ReadPhase, Option<Seq<u8>>) {
    if new.len() < remain {
        (ReadPhase::PendingData((remain - new.len()) as u32, data + new), None)
    } else {
        (ReadPhase::Ready, Some(data + new))
    }
}

/// The phase and the message after a read in progress gave `new`.
pub open spec fn read_step(phase: ReadPhase, new: Seq<u8>, max: u32) -> Result<
    (ReadPhase, Option<Seq<u8>>),
    WinError,
> {
    match phase {
        ReadPhase::PendingSized(r, d) => match size_step(r, d, new, max) {
            Ok(p) => Ok((p, None)),
            Err(e) => Err(e),
        },
        ReadPhase::PendingData(r, d) => Ok(data_step(r, d, new)),
        _ => Ok((phase, None)),
    }
}

/// The bytes still to come of the read in progress.
pub open spec fn awaited(phase: ReadPhase) -> int {
    match phase {
        ReadPhase::PendingSized(r, _) => r as int,
        ReadPhase::PendingData(r, _) => r as int,
        _ => 0,
    }
}

/// A read is in progress.
pub open spec fn read_in_progress(phase: ReadPhase) -> bool {
    phase is PendingSized || phase is PendingData
}

/// How many bytes the next read asks for in a phase.
pub open spec fn read_size_of(phase: ReadPhase) -> u32 {
    match phase {
        ReadPhase::WaitingForData(r, _) => r,
        ReadPhase::PendingSized(r, _) => r,
        ReadPhase::PendingData(r, _) => r,
        _ => 4,
    }
}

/// The phase once a read is asked for: a length is read from the start, a message whose
/// length is known is read, and a read that came back short goes on where it stopped.
pub open spec fn begun(phase: ReadPhase) -> ReadPhase {
    match phase {
        ReadPhase::Ready => ReadPhase::PendingSized(4, Seq::empty()),
        ReadPhase::WaitingForData(r, d) => ReadPhase::PendingData(r, d),
        _ => phase,
    }
}

/// The write queue once a message is queued: its frame is appended, unless the message
/// or the queue would be over its limit.
pub open spec fn queue_step(b: Seq<u8>, message: Option<Seq<u8>>, max_message: u32, max_queue: u32) -> Result<
    Seq<u8>,
    WinError,
> {
    match message {
        None => Ok(b),
        Some(m) => if m.len() > max_message {
            Err(WinError { code: ERROR_NOT_ENOUGH_MEMORY })
        } else if b.len() + frame(m).len() > max_queue {
            Err(WinError { code: ERROR_NOT_ENOUGH_MEMORY })
        } else {
            Ok(b + frame(m))
        },
    }
}

fn append_bytes(v: &mut Vec<u8>, more: &Vec<u8>)
    ensures
        final(v)@ == old(v)@ + more@,
{
    let mut m = more.clone();
    v.append(&mut m);
}

/// The four little-endian bytes of `n`.
fn le_bytes_of(n: u32) -> (r: Vec<u8>)
    ensures
        r@ == le_bytes(n),
{
    let mut r: Vec<u8> = Vec::new();
    r.push((n % 256) as u8);
    r.push(((n / 256) % 256) as u8);
    r.push(((n / 65536) % 256) as u8);
    r.push((n / 16777216) as u8);
    assert(r@ =~= le_bytes(n));
    r
}

/// A message pipe: the pipe, where reading, writing and waiting for a client stand, and
/// the limits on a message and on the bytes queued for writing.
pub struct PipeTalker {
    read_state: PipeTalkerReadState,
    write_state: PipeTalkerWriteState,
    connect_state: PipeTalkerConnectState,
    pipe: NamedPipe,
    max_message_size: u32,
    max_write_queue_size: u32,
}

impl PipeTalker {
    pub closed spec fn read_phase(&self) -> ReadPhase {
        self.read_state@
    }

    pub closed spec fn write_phase(&self) -> WritePhase {
        self.write_state@
    }

    pub closed spec fn connect_phase(&self) -> PipeTalkerConnectState {
        self.connect_state
    }

    pub closed spec fn pipe_spec(&self) -> NamedPipe {
        self.pipe
    }

    pub closed spec fn max_message(&self) -> u32 {
        self.max_message_size
    }

    pub closed spec fn max_queue(&self) -> u32 {
        self.max_write_queue_size
    }

    /// What holds of a talker between calls: a length being read has at most four bytes,
    /// a message at most the limit, and the write queue is within its limit (and not
    /// empty while a write is in progress).
    pub open spec fn wf(&self) -> bool {
        &&& match self.read_phase() {
            ReadPhase::PendingSized(r, d) => 1 <= r && d.len() + r == 4,
            ReadPhase::WaitingForData(r, d) => d.len() == 0 && 1 <= r <= self.max_message(),
            ReadPhase::PendingData(r, d) => 1 <= r && d.len() + r <= self.max_message(),
            _ => true,
        }
        &&& match self.write_phase() {
            WritePhase::Queued(b) => b.len() <= self.max_queue(),
            WritePhase::Pending(b) => 0 < b.len() <= self.max_queue(),
            WritePhase::Error => true,
        }
    }

    fn new(pipe: NamedPipe, max_message_size: u32, max_write_queue_size: u32, create: bool) -> (r:
        PipeTalker)
        ensures
            r.wf(),
            r.read_phase() == ReadPhase::Ready,
            r.write_phase() == WritePhase::Queued(Seq::empty()),
            r.connect_phase() == if create {
                PipeTalkerConnectState::Ready
            } else {
                PipeTalkerConnectState::Error
            },
            r.pipe_spec() == pipe,
            r.max_message() == max_message_size,
            r.max_queue() == max_write_queue_size,
    {
        PipeTalker {
            read_state: PipeTalkerReadState::Ready,
            write_state: PipeTalkerWriteState::Queued(Vec::new()),
            connect_state: if create {
                PipeTalkerConnectState::Ready
            } else {
                PipeTalkerConnectState::Error
            },
            pipe,
            max_message_size,
            max_write_queue_size,
        }
    }

    /// A talker on the server's end of a pipe that was just created, overlapped and with
    /// nothing in progress: it may wait for a client.
    pub fn create(pipe: NamedPipe, max_message_size: u32, max_write_queue_size: u32) -> (r:
        PipeTalker)
        requires
            pipe.server_spec(),
            pipe.is_overlapped(),
            pipe.read_pending() is None,
            pipe.write_pending() is None,
            pipe.connect_pending() is None,
        ensures
            r.wf(),
            r.read_phase() == ReadPhase::Ready,
            r.write_phase() == WritePhase::Queued(Seq::empty()),
            r.connect_phase() == PipeTalkerConnectState::Ready,
            r.pipe_spec() == pipe,
            r.max_message() == max_message_size,
            r.max_queue() == max_write_queue_size,
    {
        PipeTalker::new(pipe, max_message_size, max_write_queue_size, true)
    }

    /// A talker on the client's end of a pipe that was just opened, overlapped and with
    /// nothing in progress: it never waits for a client.
    pub fn open(pipe: NamedPipe, max_message_size: u32, max_write_queue_size: u32) -> (r:
        PipeTalker)
        requires
            !pipe.server_spec(),
            pipe.is_overlapped(),
            pipe.read_pending() is None,
            pipe.write_pending() is None,
            pipe.connect_pending() is None,
        ensures
            r.wf(),
            r.read_phase() == ReadPhase::Ready,
            r.write_phase() == WritePhase::Queued(Seq::empty()),
            r.connect_phase() == PipeTalkerConnectState::Error,
            r.pipe_spec() == pipe,
            r.max_message() == max_message_size,
            r.max_queue() == max_write_queue_size,
    {
        PipeTalker::new(pipe, max_message_size, max_write_queue_size, false)
    }

    pub fn get_handle(&self) -> (r: u64)
        ensures
            r == self.pipe_spec().handle_spec(),
    {
        self.pipe.get_handle()
    }

    pub fn get_read_event(&self) -> (r: Option<u64>)
        ensures
            r == self.pipe_spec().read_event(),
    {
        self.pipe.get_read_event()
    }

    pub fn get_write_event(&self) -> (r: Option<u64>)
        ensures
            r == self.pipe_spec().write_event(),
    {
        self.pipe.get_write_event()
    }

    pub fn get_connect_event(&self) -> (r: Option<u64>)
        ensures
            r == self.pipe_spec().connect_event(),
    {
        self.pipe.get_connect_event()
    }

    /// How many bytes the next read asks for: the four bytes of a length, the bytes of
    /// the message whose length is known, or what is still missing of a read that came
    /// back short.
    pub fn read_size(&self) -> (r: u32)
        requires
            !(self.read_phase() is Error),
        ensures
            r == read_size_of(self.read_phase()),
    {
        match &self.read_state {
            PipeTalkerReadState::WaitingForData(remain, _) => *remain,
            PipeTalkerReadState::PendingSized(remain, _) => *remain,
            PipeTalkerReadState::PendingData(remain, _) => *remain,
            _ => 4,
        }
    }

    /// A read of `read_size()` bytes was asked of the system with OVERLAPPED block
    /// `overlapped` and the call ended as `call`: `Ok(true)` if it is already done,
    /// `Ok(false)` if it is in progress, or the error, after which the talker reads no
    /// more.  After a short read the same phase goes on, asking for the rest.
    pub fn begin_read(&mut self, overlapped: u64, call: Result<(), WinError>) -> (r: Result<
        bool,
        WinError,
    >)
        requires
            old(self).wf(),
            !(old(self).read_phase() is Error),
            old(self).pipe_spec().is_overlapped(),
            old(self).pipe_spec().read_pending() is None,
        ensures
            final(self).wf(),
            match async_result(call) {
                Ok(done) => r == Ok::<bool, WinError>(done is Some) && final(self).read_phase()
                    == begun(old(self).read_phase()) && final(self).pipe_spec().read_pending()
                    == Some(overlapped) && final(self).pipe_spec().read_count() == read_size_of(
                    old(self).read_phase(),
                ),
                Err(e) => r == Err::<bool, WinError>(e) && final(self).read_phase()
                    == ReadPhase::Error,
            },
            same_pipe_except_read(old(self).pipe_spec(), final(self).pipe_spec()),
            final(self).write_phase() == old(self).write_phase(),
            final(self).connect_phase() == old(self).connect_phase(),
            final(self).max_message() == old(self).max_message(),
            final(self).max_queue() == old(self).max_queue(),
    {
        let mut state = PipeTalkerReadState::Error;
        std::mem::swap(&mut state, &mut self.read_state);
        match state {
            PipeTalkerReadState::WaitingForData(remain, data) => {
                match self.pipe.begin_read(remain, overlapped, call) {
                    Ok(done) => {
                        self.read_state = PipeTalkerReadState::PendingData(remain, data);
                        Ok(done)
                    },
                    Err(e) => Err(e),
                }
            },
            PipeTalkerReadState::PendingSized(remain, data) => {
                match self.pipe.begin_read(remain, overlapped, call) {
                    Ok(done) => {
                        self.read_state = PipeTalkerReadState::PendingSized(remain, data);
                        Ok(done)
                    },
                    Err(e) => Err(e),
                }
            },
            PipeTalkerReadState::PendingData(remain, data) => {
                match self.pipe.begin_read(remain, overlapped, call) {
                    Ok(done) => {
                        self.read_state = PipeTalkerReadState::PendingData(remain, data);
                        Ok(done)
                    },
                    Err(e) => Err(e),
                }
            },
            _ => {
                match self.pipe.begin_read(4, overlapped, call) {
                    Ok(done) => {
                        self.read_state = PipeTalkerReadState::PendingSized(4, Vec::new());
                        Ok(done)
                    },
                    Err(e) => Err(e),
                }
            },
        }
    }

    fn on_read_message_size(&self, remain: u32, data: Vec<u8>, new_data: &Vec<u8>) -> (r: Result<
        PipeTalkerReadState,
        WinError,
    >)
        requires
            new_data@.len() <= remain,
            1 <= remain,
            data@.len() + remain == 4,
        ensures
            match r {
                Ok(s) => size_step(remain, data@, new_data@, self.max_message()) == Ok::<
                    ReadPhase,
                    WinError,
                >(s@),
                Err(e) => size_step(remain, data@, new_data@, self.max_message()) == Err::<
                    ReadPhase,
                    WinError,
                >(e),
            },
    {
        let mut data = data;
        append_bytes(&mut data, new_data);
        if new_data.len() < remain as usize {
            Ok(PipeTalkerReadState::PendingSized(remain - new_data.len() as u32, data))
        } else {
            let size: u32 = data[0] as u32 + data[1] as u32 * 256 + data[2] as u32 * 65536
                + data[3] as u32 * 16777216;
            if size == 0 {
                Ok(PipeTalkerReadState::Ready)
            } else if size > self.max_message_size {
                Err(WinError { code: ERROR_NOT_ENOUGH_MEMORY })
            } else {
                Ok(PipeTalkerReadState::WaitingForData(size, Vec::new()))
            }
        }
    }

    fn on_read_data(&self, remain: u32, data: Vec<u8>, new_data: &Vec<u8>) -> (r: (
        PipeTalkerReadState,
        Option<Vec<u8>>,
    ))
        requires
            new_data@.len() <= remain,
        ensures
            data_step(remain, data@, new_data@) == (r.0@, match r.1 {
                Some(m) => Some(m@),
                None => None,
            }),
    {
        let mut data = data;
        append_bytes(&mut data, new_data);
        if new_data.len() < remain as usize {
            (PipeTalkerReadState::PendingData(remain - new_data.len() as u32, data), None)
        } else {
            (PipeTalkerReadState::Ready, Some(data))
        }
    }

    fn complete_read(&mut self, new_data: &Vec<u8>) -> (r: Result<Option<Vec<u8>>, WinError>)
        requires
            old(self).wf(),
            read_in_progress(old(self).read_phase()),
            new_data@.len() <= awaited(old(self).read_phase()),
        ensures
            final(self).wf(),
            match read_step(old(self).read_phase(), new_data@, old(self).max_message()) {
                Ok((p, m)) => final(self).read_phase() == p && match r {
                    Ok(Some(v)) => m == Some(v@),
                    Ok(None) => m is None,
                    Err(_) => false,
                },
                Err(e) => final(self).read_phase() == ReadPhase::Error && r == Err::<
                    Option<Vec<u8>>,
                    WinError,
                >(e),
            },
            final(self).pipe_spec() == old(self).pipe_spec(),
            final(self).write_phase() == old(self).write_phase(),
            final(self).connect_phase() == old(self).connect_phase(),
            final(self).max_message() == old(self).max_message(),
            final(self).max_queue() == old(self).max_queue(),
    {
        let mut state = PipeTalkerReadState::Error;
        std::mem::swap(&mut state, &mut self.read_state);
        match state {
            PipeTalkerReadState::PendingSized(remain, data) => {
                match self.on_read_message_size(remain, data, new_data) {
                    Ok(s) => {
                        self.read_state = s;
                        Ok(None)
                    },
                    Err(e) => Err(e),
                }
            },
            PipeTalkerReadState::PendingData(remain, data) => {
                let (s, message) = self.on_read_data(remain, data, new_data);
                self.read_state = s;
                Ok(message)
            },
            other => {
                self.read_state = other;
                Ok(None)
            },
        }
    }

    /// The read in progress is over, as `result` says (the count of bytes read, or the
    /// error); `buffer` is its buffer.  An error of the pipe is returned and leaves the
    /// talker as it was; otherwise the bytes read advance the reading, which may complete
    /// a message.
    pub fn end_read(&mut self, result: Result<u32, WinError>, buffer: &Vec<u8>) -> (r: Result<
        Option<Vec<u8>>,
        WinError,
    >)
        requires
            old(self).wf(),
            read_in_progress(old(self).read_phase()),
            old(self).pipe_spec().read_pending() is Some,
            read_completion_ok(result, buffer@),
            result is Ok ==> result->Ok_0 <= awaited(old(self).read_phase()),
        ensures
            final(self).wf(),
            final(self).pipe_spec().read_pending() is None,
            same_pipe_except_read(old(self).pipe_spec(), final(self).pipe_spec()),
            match result {
                Err(e) => r == Err::<Option<Vec<u8>>, WinError>(e) && final(self).read_phase()
                    == old(self).read_phase(),
                Ok(n) => match read_step(
                    old(self).read_phase(),
                    read_bytes(buffer@, n),
                    old(self).max_message(),
                ) {
                    Ok((p, m)) => final(self).read_phase() == p && match r {
                        Ok(Some(v)) => m == Some(v@),
                        Ok(None) => m is None,
                        Err(_) => false,
                    },
                    Err(e) => final(self).read_phase() == ReadPhase::Error && r == Err::<
                        Option<Vec<u8>>,
                        WinError,
                    >(e),
                },
            },
            final(self).write_phase() == old(self).write_phase(),
            final(self).connect_phase() == old(self).connect_phase(),
            final(self).max_message() == old(self).max_message(),
            final(self).max_queue() == old(self).max_queue(),
    {
        let new_data = match self.pipe.end_read_evented(result, buffer) {
            Ok(v) => v,
            Err(e) => {
                return Err(e);
            },
        };
        self.complete_read(&new_data)
    }

    fn do_queue_write(&self, message: Option<&[u8]>, remain: Vec<u8>) -> (r: Result<
        Vec<u8>,
        WinError,
    >)
        ensures
            match r {
                Ok(b) => queue_step(
                    remain@,
                    match message {
                        Some(m) => Some(m@),
                        None => None,
                    },
                    self.max_message(),
                    self.max_queue(),
                ) == Ok::<Seq<u8>, WinError>(b@),
                Err(e) => queue_step(
                    remain@,
                    match message {
                        Some(m) => Some(m@),
                        None => None,
                    },
                    self.max_message(),
                    self.max_queue(),
                ) == Err::<Seq<u8>, WinError>(e),
            },
    {
        let ghost start = remain@;
        let mut remain = remain;
        if let Some(msg) = message {
            if msg.len() > self.max_message_size as usize {
                return Err(WinError { code: ERROR_NOT_ENOUGH_MEMORY });
            }
            let len = le_bytes_of(msg.len() as u32);
            append_bytes(&mut remain, &len);
            let body = crate::named_pipe::slice_to_vec(msg);
            append_bytes(&mut remain, &body);
            assert(remain@ =~= start + frame(msg@));
            if remain.len() > self.max_write_queue_size as usize {
                return Err(WinError { code: ERROR_NOT_ENOUGH_MEMORY });
            }
        }
        Ok(remain)
    }

    /// Queues a message (or nothing, to push out what is queued).  A message over the
    /// limit, or a queue that would go over its limit, is refused, and the talker writes
    /// no more.  Otherwise the queue grows by the message's frame; when no write is in
    /// progress and the queue is not empty, the bytes to write are returned: the caller
    /// asks the system to write them and hands the outcome to `begin_write`.
    pub fn queue_write(&mut self, message: Option<&[u8]>) -> (r: Result<Option<Vec<u8>>, WinError>)
        requires
            old(self).wf(),
            !(old(self).write_phase() is Error),
        ensures
            final(self).wf(),
            ({
                let b = match old(self).write_phase() {
                    WritePhase::Queued(b) => b,
                    WritePhase::Pending(b) => b,
                    WritePhase::Error => Seq::empty(),
                };
                let m = match message {
                    Some(m) => Some(m@),
                    None => None,
                };
                match queue_step(b, m, old(self).max_message(), old(self).max_queue()) {
                    Err(e) => r == Err::<Option<Vec<u8>>, WinError>(e) && final(self).write_phase()
                        == WritePhase::Error,
                    Ok(nb) => final(self).write_phase() == (if nb.len() == 0 {
                        WritePhase::Queued(nb)
                    } else {
                        WritePhase::Pending(nb)
                    }) && r is Ok && match r->Ok_0 {
                        Some(w) => old(self).write_phase() is Queued && nb.len() > 0 && w@ == nb,
                        None => old(self).write_phase() is Pending || nb.len() == 0,
                    },
                }
            }),
            final(self).pipe_spec() == old(self).pipe_spec(),
            final(self).read_phase() == old(self).read_phase(),
            final(self).connect_phase() == old(self).connect_phase(),
            final(self).max_message() == old(self).max_message(),
            final(self).max_queue() == old(self).max_queue(),
    {
        let mut state = PipeTalkerWriteState::Error;
        std::mem::swap(&mut state, &mut self.write_state);
        let (remain, is_pending) = match state {
            PipeTalkerWriteState::Queued(b) => (b, false),
            PipeTalkerWriteState::Pending(b) => (b, true),
            PipeTalkerWriteState::Error => (Vec::new(), false),
        };
        match self.do_queue_write(message, remain) {
            Ok(b) => {
                let start = !(is_pending || b.len() == 0);
                let to_write = if start {
                    Some(b.clone())
                } else {
                    None
                };
                self.write_state = if b.len() == 0 {
                    PipeTalkerWriteState::Queued(b)
                } else {
                    PipeTalkerWriteState::Pending(b)
                };
                Ok(to_write)
            },
            Err(e) => Err(e),
        }
    }

    /// The bytes that `queue_write` returned were asked of the system to write with
    /// OVERLAPPED block `overlapped`, and the call ended as `call`: `Ok(true)` if it is
    /// already done, `Ok(false)` if it is in progress, or the error, after which the
    /// talker writes no more.
    pub fn begin_write(&mut self, overlapped: u64, call: Result<(), WinError>) -> (r: Result<
        bool,
        WinError,
    >)
        requires
            old(self).wf(),
            old(self).write_phase() is Pending,
            old(self).pipe_spec().is_overlapped(),
            old(self).pipe_spec().write_pending() is None,
        ensures
            final(self).wf(),
            match async_result(call) {
                Ok(done) => r == Ok::<bool, WinError>(done is Some) && final(self).write_phase()
                    == old(self).write_phase() && final(self).pipe_spec().write_pending() == Some(
                    overlapped,
                ) && final(self).pipe_spec().write_buffer() == old(self).write_phase()->Pending_0,
                Err(e) => r == Err::<bool, WinError>(e) && final(self).write_phase()
                    == WritePhase::Error,
            },
            same_pipe_except_write(old(self).pipe_spec(), final(self).pipe_spec()),
            final(self).read_phase() == old(self).read_phase(),
            final(self).connect_phase() == old(self).connect_phase(),
            final(self).max_message() == old(self).max_message(),
            final(self).max_queue() == old(self).max_queue(),
    {
        let mut state = PipeTalkerWriteState::Error;
        std::mem::swap(&mut state, &mut self.write_state);
        match state {
            PipeTalkerWriteState::Pending(b) => {
                match self.pipe.begin_write(b.as_slice(), overlapped, call) {
                    Ok(done) => {
                        self.write_state = PipeTalkerWriteState::Pending(b);
                        Ok(done)
                    },
                    Err(e) => Err(e),
                }
            },
            other => {
                self.write_state = other;
                Ok(false)
            },
        }
    }

    fn complete_write(&mut self, written: u32)
        requires
            old(self).wf(),
            old(self).write_phase() is Pending,
            written <= old(self).write_phase()->Pending_0.len(),
        ensures
            final(self).wf(),
            final(self).write_phase() == WritePhase::Queued(
                old(self).write_phase()->Pending_0.skip(written as int),
            ),
            final(self).pipe_spec() == old(self).pipe_spec(),
            final(self).read_phase() == old(self).read_phase(),
            final(self).connect_phase() == old(self).connect_phase(),
            final(self).max_message() == old(self).max_message(),
            final(self).max_queue() == old(self).max_queue(),
    {
        let mut state = PipeTalkerWriteState::Error;
        std::mem::swap(&mut state, &mut self.write_state);
        match state {
            PipeTalkerWriteState::Pending(mut remain) => {
                let rest = remain.split_off(written as usize);
                assert(rest@ =~= old(self).write_phase()->Pending_0.skip(written as int));
                self.write_state = PipeTalkerWriteState::Queued(rest);
            },
            other => {
                self.write_state = other;
            },
        }
    }

    /// The write in progress is over, as `result` says (the count of bytes written, or
    /// the error).  An error of the pipe is returned and leaves the talker as it was;
    /// otherwise the bytes written leave the queue.
    pub fn end_write(&mut self, result: Result<u32, WinError>) -> (r: Result<(), WinError>)
        requires
            old(self).wf(),
            old(self).write_phase() is Pending,
            old(self).pipe_spec().write_pending() is Some,
            completion_ok(result),
            result is Ok ==> result->Ok_0 <= old(self).write_phase()->Pending_0.len(),
        ensures
            final(self).wf(),
            final(self).pipe_spec().write_pending() is None,
            same_pipe_except_write(old(self).pipe_spec(), final(self).pipe_spec()),
            match result {
                Err(e) => r == Err::<(), WinError>(e) && final(self).write_phase() == old(
                    self,
                ).write_phase(),
                Ok(n) => r is Ok && final(self).write_phase() == WritePhase::Queued(
                    old(self).write_phase()->Pending_0.skip(n as int),
                ),
            },
            final(self).read_phase() == old(self).read_phase(),
            final(self).connect_phase() == old(self).connect_phase(),
            final(self).max_message() == old(self).max_message(),
            final(self).max_queue() == old(self).max_queue(),
    {
        let count = match self.pipe.end_write_evented(result) {
            Ok(n) => n,
            Err(e) => {
                return Err(e);
            },
        };
        self.complete_write(count);
        Ok(())
    }

    /// An overlapped operation of the pipe completed with OVERLAPPED block `overlapped`,
    /// as `result` says; `read_buffer` is the buffer of a read.  It is handed to the
    /// pipe, and what it gave advances the reading, the writing or the wait for a client,
    /// as `end_read`, `end_write` and `end_connect` do.
    pub fn complete_io(
        &mut self,
        overlapped: u64,
        result: Result<u32, WinError>,
        read_buffer: &Vec<u8>,
    ) -> (r: Result<PipeTalkerResult, WinError>)
        requires
            old(self).wf(),
            completion_ok(result),
            old(self).pipe_spec().read_pending() == Some(overlapped) ==> {
                &&& read_in_progress(old(self).read_phase())
                &&& read_completion_ok(result, read_buffer@)
                &&& result is Ok ==> result->Ok_0 <= awaited(old(self).read_phase())
            },
            old(self).pipe_spec().read_pending() != Some(overlapped) && old(
                self,
            ).pipe_spec().write_pending() == Some(overlapped) ==> {
                &&& old(self).write_phase() is Pending
                &&& result is Ok ==> result->Ok_0 <= old(self).write_phase()->Pending_0.len()
            },
            old(self).pipe_spec().read_pending() != Some(overlapped) && old(
                self,
            ).pipe_spec().write_pending() != Some(overlapped) ==> {
                &&& old(self).pipe_spec().connect_pending() == Some(overlapped)
                &&& old(self).connect_phase() == PipeTalkerConnectState::Pending
                &&& result is Err ==> result->Err_0.code != ERROR_PIPE_CONNECTED
            },
        ensures
            final(self).wf(),
            final(self).max_message() == old(self).max_message(),
            final(self).max_queue() == old(self).max_queue(),
            old(self).pipe_spec().read_pending() == Some(overlapped) ==> {
                &&& final(self).write_phase() == old(self).write_phase()
                &&& final(self).connect_phase() == old(self).connect_phase()
                &&& match result {
                    Err(e) => r == Err::<PipeTalkerResult, WinError>(e) && final(self).read_phase()
                        == old(self).read_phase(),
                    Ok(n) => match read_step(
                        old(self).read_phase(),
                        read_bytes(read_buffer@, n),
                        old(self).max_message(),
                    ) {
                        Ok((p, m)) => final(self).read_phase() == p && match r {
                            Ok(PipeTalkerResult::Read(Some(v))) => m == Some(v@),
                            Ok(PipeTalkerResult::Read(None)) => m is None,
                            _ => false,
                        },
                        Err(e) => final(self).read_phase() == ReadPhase::Error && r == Err::<
                            PipeTalkerResult,
                            WinError,
                        >(e),
                    },
                }
            },
            old(self).pipe_spec().read_pending() != Some(overlapped) && old(
                self,
            ).pipe_spec().write_pending() == Some(overlapped) ==> {
                &&& final(self).read_phase() == old(self).read_phase()
                &&& final(self).connect_phase() == old(self).connect_phase()
                &&& match result {
                    Err(e) => r == Err::<PipeTalkerResult, WinError>(e) && final(self).write_phase()
                        == old(self).write_phase(),
                    Ok(n) => r matches Ok(PipeTalkerResult::Written) && final(self).write_phase()
                        == WritePhase::Queued(old(self).write_phase()->Pending_0.skip(n as int)),
                }
            },
            old(self).pipe_spec().read_pending() != Some(overlapped) && old(
                self,
            ).pipe_spec().write_pending() != Some(overlapped) ==> {
                &&& final(self).read_phase() == old(self).read_phase()
                &&& final(self).write_phase() == old(self).write_phase()
                &&& match result {
                    Err(e) => r == Err::<PipeTalkerResult, WinError>(e) && final(self).connect_phase()
                        == PipeTalkerConnectState::Pending,
                    Ok(_) => r matches Ok(PipeTalkerResult::Connected) && final(self).connect_phase()
                        == PipeTalkerConnectState::Ready,
                }
            },
    {
        match self.pipe.complete_io(overlapped, result, read_buffer) {
            Ok(NamedPipeResult::Read(new_data)) => match self.complete_read(&new_data) {
                Ok(message) => Ok(PipeTalkerResult::Read(message)),
                Err(e) => Err(e),
            },
            Ok(NamedPipeResult::Written(count)) => {
                self.complete_write(count);
                Ok(PipeTalkerResult::Written)
            },
            Ok(NamedPipeResult::Connected) => {
                self.connect_state = PipeTalkerConnectState::Ready;
                Ok(PipeTalkerResult::Connected)
            },
            Err(e) => Err(e),
        }
    }

    /// The server asked the system to wait for a client with OVERLAPPED block
    /// `overlapped`, and the call failed as `call`: `Ok(true)` if a client is already
    /// connected, `Ok(false)` if the wait is in progress, or the error, after which the
    /// talker waits no more.
    pub fn begin_connect(&mut self, overlapped: u64, call: Result<(), WinError>) -> (r: Result<
        bool,
        WinError,
    >)
        requires
            old(self).connect_phase() == PipeTalkerConnectState::Ready,
            old(self).pipe_spec().is_overlapped(),
            old(self).pipe_spec().server_spec(),
            old(self).pipe_spec().connect_pending() is None,
            call is Err,
        ensures
            r == (if call->Err_0.code == ERROR_IO_PENDING {
                Ok::<bool, WinError>(false)
            } else if call->Err_0.code == ERROR_PIPE_CONNECTED {
                Ok::<bool, WinError>(true)
            } else {
                Err::<bool, WinError>(call->Err_0)
            }),
            final(self).connect_phase() == (if call->Err_0.code == ERROR_IO_PENDING {
                PipeTalkerConnectState::Pending
            } else if call->Err_0.code == ERROR_PIPE_CONNECTED {
                PipeTalkerConnectState::Ready
            } else {
                PipeTalkerConnectState::Error
            }),
            final(self).pipe_spec().connect_pending() == (if call->Err_0.code == ERROR_IO_PENDING {
                Some(overlapped)
            } else {
                None
            }),
            same_pipe_except_connect(old(self).pipe_spec(), final(self).pipe_spec()),
            final(self).read_phase() == old(self).read_phase(),
            final(self).write_phase() == old(self).write_phase(),
            final(self).max_message() == old(self).max_message(),
            final(self).max_queue() == old(self).max_queue(),
            old(self).wf() ==> final(self).wf(),
    {
        self.connect_state = PipeTalkerConnectState::Error;
        match self.pipe.begin_connect(overlapped, call) {
            Ok(connected) => {
                self.connect_state = if connected {
                    PipeTalkerConnectState::Ready
                } else {
                    PipeTalkerConnectState::Pending
                };
                Ok(connected)
            },
            Err(e) => Err(e),
        }
    }

    /// The wait for a client is over, as `result` says.  An error of the pipe is returned
    /// and leaves the talker as it was; otherwise the talker may wait again.
    pub fn end_connect(&mut self, result: Result<u32, WinError>) -> (r: Result<(), WinError>)
        requires
            old(self).connect_phase() == PipeTalkerConnectState::Pending,
            old(self).pipe_spec().connect_pending() is Some,
            completion_ok(result),
            result is Err ==> result->Err_0.code != ERROR_PIPE_CONNECTED,
        ensures
            final(self).pipe_spec().connect_pending() is None,
            same_pipe_except_connect(old(self).pipe_spec(), final(self).pipe_spec()),
            match result {
                Err(e) => r == Err::<(), WinError>(e) && final(self).connect_phase()
                    == PipeTalkerConnectState::Pending,
                Ok(_) => r is Ok && final(self).connect_phase() == PipeTalkerConnectState::Ready,
            },
            final(self).read_phase() == old(self).read_phase(),
            final(self).write_phase() == old(self).write_phase(),
            final(self).max_message() == old(self).max_message(),
            final(self).max_queue() == old(self).max_queue(),
            old(self).wf() ==> final(self).wf(),
    {
        match self.pipe.end_connect_evented(result) {
            Ok(()) => {
                self.connect_state = PipeTalkerConnectState::Ready;
                Ok(())
            },
            Err(e) => Err(e),
        }
    }
}

/// A message sent as its frame is read back whole: the length read in one read leads to
/// a read of the message's bytes, which gives the message, and reading starts over.
pub proof fn lemma_frame_round_trip(m: Seq<u8>, max: u32)
    requires
        0 < m.len() <= max,
    ensures
        frame(m) == le_bytes(m.len() as u32) + m,
        read_step(ReadPhase::PendingSized(4, Seq::empty()), le_bytes(m.len() as u32), max) == Ok::<
            (ReadPhase, Option<Seq<u8>>),
            WinError,
        >((ReadPhase::WaitingForData(m.len() as u32, Seq::empty()), None)),
        read_step(ReadPhase::PendingData(m.len() as u32, Seq::empty()), m, max) == Ok::<
            (ReadPhase, Option<Seq<u8>>),
            WinError,
        >((ReadPhase::Ready, Some(m))),
{
    lemma_le_round_trip(m.len() as u32);
    assert(Seq::<u8>::empty() + le_bytes(m.len() as u32) =~= le_bytes(m.len() as u32));
    assert(Seq::<u8>::empty() + m =~= m);
}

/// An empty message is a ping: its frame is a zero length, and reading it delivers no
/// message and starts over.
pub proof fn lemma_ping(max: u32)
    ensures
        frame(Seq::empty()) == le_bytes(0),
        read_step(ReadPhase::PendingSized(4, Seq::empty()), le_bytes(0), max) == Ok::<
            (ReadPhase, Option<Seq<u8>>),
            WinError,
        >((ReadPhase::Ready, None)),
{
    assert(frame(Seq::empty()) =~= le_bytes(0));
    assert(Seq::<u8>::empty() + le_bytes(0) =~= le_bytes(0));
    lemma_le_round_trip(0);
}

/// A length over the limit is refused.
pub proof fn lemma_oversized_refused(n: u32, max: u32)
    requires
        n > max,
    ensures
        read_step(ReadPhase::PendingSized(4, Seq::empty()), le_bytes(n), max) == Err::<
            (ReadPhase, Option<Seq<u8>>),
            WinError,
        >(WinError { code: ERROR_NOT_ENOUGH_MEMORY }),
{
    assert(Seq::<u8>::empty() + le_bytes(n) =~= le_bytes(n));
    lemma_le_round_trip(n);
}


/// Byte strings one after the other.
pub open spec fn concat_bytes(cs: Seq<Seq<u8>>) -> Seq<u8>
    decreases cs.len(),
{
    if cs.len() == 0 {
        Seq::empty()
    } else {
        cs[0] + concat_bytes(cs.drop_first())
    }
}

/// No byte string of the list is empty.
pub open spec fn all_nonempty(cs: Seq<Seq<u8>>) -> bool {
    forall|i: int| 0 <= i < cs.len() ==> (#[trigger] cs[i]).len() > 0
}

/// A message put in front of the messages of a reading outcome.
pub open spec fn with_first(m: Seq<u8>, res: Result<(ReadPhase, Seq<Seq<u8>>), WinError>) -> Result<
    (ReadPhase, Seq<Seq<u8>>),
    WinError,
> {
    match res {
        Ok((p, ms)) => Ok((p, seq![m] + ms)),
        Err(e) => Err(e),
    }
}

/// Reading goes on from `phase` through reads that give `chunks` in turn, each asked for
/// with `begin_read` and finished with `end_read`: the phase reached and the messages
/// delivered, in order, or the error that stopped the reading.
pub open spec fn read_all(phase: ReadPhase, chunks: Seq<Seq<u8>>, max: u32) -> Result<
    (ReadPhase, Seq<Seq<u8>>),
    WinError,
>
    decreases chunks.len(),
{
    if chunks.len() == 0 {
        Ok((phase, Seq::empty()))
    } else {
        match read_step(begun(phase), chunks[0], max) {
            Err(e) => Err(e),
            Ok((p, m)) => match m {
                Some(x) => with_first(x, read_all(p, chunks.drop_first(), max)),
                None => read_all(p, chunks.drop_first(), max),
            },
        }
    }
}

proof fn lemma_concat_nonempty_len(cs: Seq<Seq<u8>>)
    requires
        all_nonempty(cs),
    ensures
        concat_bytes(cs).len() >= cs.len(),
    decreases cs.len(),
{
    if cs.len() > 0 {
        assert(cs[0].len() > 0);
        assert forall|i: int| 0 <= i < cs.drop_first().len() implies (
        #[trigger] cs.drop_first()[i]).len() > 0 by {
            assert(cs.drop_first()[i] == cs[i + 1]);
        }
        lemma_concat_nonempty_len(cs.drop_first());
    }
}

/// The reads of a length, cut in any way, lead where one read of the whole length leads.
proof fn lemma_size_chunks(r: u32, d: Seq<u8>, hs: Seq<Seq<u8>>, rest: Seq<Seq<u8>>, max: u32)
    requires
        hs.len() > 0,
        all_nonempty(hs),
        concat_bytes(hs).len() == r,
    ensures
        read_all(ReadPhase::PendingSized(r, d), hs + rest, max) == match size_step(
            r,
            d,
            concat_bytes(hs),
            max,
        ) {
            Ok(p) => read_all(p, rest, max),
            Err(e) => Err(e),
        },
    decreases hs.len(),
{
    let c = hs[0];
    let tail = hs.drop_first();
    assert((hs + rest)[0] == c);
    assert((hs + rest).drop_first() =~= tail + rest);
    assert(all_nonempty(tail)) by {
        assert forall|i: int| 0 <= i < tail.len() implies (#[trigger] tail[i]).len() > 0 by {
            assert(tail[i] == hs[i + 1]);
        }
    }
    assert(c.len() > 0);
    if hs.len() == 1 {
        assert(tail =~= Seq::<Seq<u8>>::empty());
        assert(concat_bytes(hs) =~= c);
        assert(tail + rest =~= rest);
    } else {
        lemma_concat_nonempty_len(tail);
        assert(c.len() < r);
        let r2 = (r - c.len()) as u32;
        lemma_size_chunks(r2, d + c, tail, rest, max);
        assert(d + concat_bytes(hs) =~= (d + c) + concat_bytes(tail));
    }
}

/// The reads of a message, cut in any way, deliver the message whole.
proof fn lemma_data_chunks(r: u32, d: Seq<u8>, ds: Seq<Seq<u8>>, rest: Seq<Seq<u8>>, max: u32)
    requires
        ds.len() > 0,
        all_nonempty(ds),
        concat_bytes(ds).len() == r,
    ensures
        read_all(ReadPhase::PendingData(r, d), ds + rest, max) == with_first(
            d + concat_bytes(ds),
            read_all(ReadPhase::Ready, rest, max),
        ),
    decreases ds.len(),
{
    let c = ds[0];
    let tail = ds.drop_first();
    assert((ds + rest)[0] == c);
    assert((ds + rest).drop_first() =~= tail + rest);
    assert(all_nonempty(tail)) by {
        assert forall|i: int| 0 <= i < tail.len() implies (#[trigger] tail[i]).len() > 0 by {
            assert(tail[i] == ds[i + 1]);
        }
    }
    assert(c.len() > 0);
    if ds.len() == 1 {
        assert(tail =~= Seq::<Seq<u8>>::empty());
        assert(concat_bytes(ds) =~= c);
        assert(tail + rest =~= rest);
    } else {
        lemma_concat_nonempty_len(tail);
        assert(c.len() < r);
        let r2 = (r - c.len()) as u32;
        lemma_data_chunks(r2, d + c, tail, rest, max);
        assert(d + concat_bytes(ds) =~= (d + c) + concat_bytes(tail));
    }
}

/// A message is read back whole however the pipe cuts its frame: when the reads give the
/// length in pieces `hs` and then the message in pieces `ds` (no piece empty, each read
/// asked for with `begin_read` and finished with `end_read`), the message is delivered
/// once and reading starts over.
pub proof fn lemma_chunked_frame(m: Seq<u8>, max: u32, hs: Seq<Seq<u8>>, ds: Seq<Seq<u8>>)
    requires
        0 < m.len() <= max,
        hs.len() > 0,
        ds.len() > 0,
        all_nonempty(hs),
        all_nonempty(ds),
        concat_bytes(hs) == le_bytes(m.len() as u32),
        concat_bytes(ds) == m,
    ensures
        read_all(ReadPhase::Ready, hs + ds, max) == Ok::<(ReadPhase, Seq<Seq<u8>>), WinError>(
            (ReadPhase::Ready, seq![m]),
        ),
{
    let n = m.len() as u32;
    let x = hs + ds;
    assert(x.len() > 0);
    // Starting from `Ready` is starting a read of the length.
    assert(read_all(ReadPhase::Ready, x, max) == read_all(
        ReadPhase::PendingSized(4, Seq::empty()),
        x,
        max,
    ));
    lemma_size_chunks(4, Seq::empty(), hs, ds, max);
    lemma_le_round_trip(n);
    assert(Seq::<u8>::empty() + le_bytes(n) =~= le_bytes(n));
    assert(size_step(4, Seq::empty(), concat_bytes(hs), max) == Ok::<ReadPhase, WinError>(
        ReadPhase::WaitingForData(n, Seq::empty()),
    ));
    // A known length starts a read of the message.
    assert(read_all(ReadPhase::WaitingForData(n, Seq::empty()), ds, max) == read_all(
        ReadPhase::PendingData(n, Seq::empty()),
        ds,
        max,
    ));
    assert(ds + Seq::<Seq<u8>>::empty() =~= ds);
    lemma_data_chunks(n, Seq::empty(), ds, Seq::empty(), max);
    assert(Seq::<u8>::empty() + m =~= m);
    assert(seq![m] + Seq::<Seq<u8>>::empty() =~= seq![m]);
}

} // verus!
