//! The decisions of the Windows event loops: the per-session clipboard agent's window and
//! wait loop, the clipboard service's completion packets, and the system's caption.
use vstd::prelude::*;
use crate::named_pipe::WinError;
use crate::pipe_talker::PipeTalkerResult;
use crate::wait::WindowedWaitResult;

verus! {

/// A window is created.
pub const WM_CREATE: u32 = 0x0001;
/// A window is destroyed.
pub const WM_DESTROY: u32 = 0x0002;
/// A window is asked to close.
pub const WM_CLOSE: u32 = 0x0010;
/// The thread is asked to quit.
pub const WM_QUIT: u32 = 0x0012;
/// The clipboard changed.
pub const WM_CLIPBOARDUPDATE: u32 = 0x031D;

/// What the clipboard agent's window does with a message.
#[derive(Clone, Copy, Debug, PartialEq, Eq, Structural)]
pub enum WindowAction {
    /// Start listening to the clipboard, then let the default procedure run.
    ListenClipboard,
    /// Send the clipboard's text to the service.
    ClipboardUpdate,
    /// Stop listening to the clipboard and destroy the window.
    Close,
    /// Quit the message loop with code 0.
    Quit,
    /// Let the default procedure run.
    Default,
}

/// The action for a window message.
pub fn window_action(msg: u32) -> (r: WindowAction)
    ensures
        r == if msg == WM_CREATE {
            WindowAction::ListenClipboard
        } else if msg == WM_CLIPBOARDUPDATE {
            WindowAction::ClipboardUpdate
        } else if msg == WM_CLOSE {
            WindowAction::Close
        } else if msg == WM_DESTROY {
            WindowAction::Quit
        } else {
            WindowAction::Default
        },
{
    if msg == WM_CREATE {
        WindowAction::ListenClipboard
    } else if msg == WM_CLIPBOARDUPDATE {
        WindowAction::ClipboardUpdate
    } else if msg == WM_CLOSE {
        WindowAction::Close
    } else if msg == WM_DESTROY {
        WindowAction::Quit
    } else {
        WindowAction::Default
    }
}

/// The exit code of a quit message: its parameter if it fits in a byte, 1 otherwise.
pub fn quit_exit_code(wparam: u64) -> (r: u8)
    ensures
        r == if wparam < 256 {
            wparam as u8
        } else {
            1u8
        },
{
    if wparam < 256 {
        wparam as u8
    } else {
        1
    }
}

/// What the clipboard agent does when its wait ends.
#[derive(Clone, Copy, Debug, PartialEq, Eq, Structural)]
pub enum AppAction {
    /// Handle the window messages.
    WindowMessages,
    /// The read of the pipe is over: take its message and read again.
    ReadDone,
    /// The write of the pipe is over: write what is still queued.
    WriteDone,
}

/// The clipboard agent waits on the pipe's read event (first) and write event (second),
/// and on window messages; nothing else can end its wait.
pub fn app_action(r: WindowedWaitResult) -> (a: AppAction)
    requires
        r == WindowedWaitResult::Input || r == WindowedWaitResult::Handle(0) || r
            == WindowedWaitResult::Handle(1),
    ensures
        a == match r {
            WindowedWaitResult::Input => AppAction::WindowMessages,
            WindowedWaitResult::Handle(0) => AppAction::ReadDone,
            _ => AppAction::WriteDone,
        },
{
    match r {
        WindowedWaitResult::Input => AppAction::WindowMessages,
        WindowedWaitResult::Handle(0) => AppAction::ReadDone,
        _ => AppAction::WriteDone,
    }
}

/// The exit code of a clipboard agent that finds another instance running.
pub const ALREADY_RUNNING_EXIT_CODE: u8 = 183;

/// A packet of the service's completion port: the OVERLAPPED block of the operation,
/// the key of the pipe instance (or signal) and the outcome.
pub struct CompletionPacket {
    pub overlapped: u64,
    pub key: u64,
    pub result: Result<u32, WinError>,
}

/// What a wait on the completion port gave: a failed wait with no OVERLAPPED block
/// (`0`) is an error of the wait; otherwise it is a packet, carrying the failure of its
/// operation if the wait failed.
pub fn completion_packet(wait: Result<u32, WinError>, overlapped: u64, key: u64) -> (r: Result<
    CompletionPacket,
    WinError,
>)
    ensures
        match wait {
            Ok(n) => r is Ok && r->Ok_0.overlapped == overlapped && r->Ok_0.key == key
                && r->Ok_0.result == Ok::<u32, WinError>(n),
            Err(e) => if overlapped == 0 {
                r == Err::<CompletionPacket, WinError>(e)
            } else {
                r is Ok && r->Ok_0.overlapped == overlapped && r->Ok_0.key == key
                    && r->Ok_0.result == Err::<u32, WinError>(e)
            },
        },
{
    match wait {
        Ok(n) => Ok(CompletionPacket { overlapped, key, result: Ok(n) }),
        Err(e) => if overlapped == 0 {
            Err(e)
        } else {
            Ok(CompletionPacket { overlapped, key, result: Err(e) })
        },
    }
}

/// What the service does after an operation of a client's pipe completed.
pub enum ClientFollowUp {
    /// A message was read: it goes to the host if `forward`; then the pipe is read again.
    ReadAgain { message: Option<Vec<u8>>, forward: bool },
    /// A write ended: what is still queued is written.
    WriteQueued,
}

/// The follow-up of a client's completed operation (a client's pipe never waits for a
/// connection): a message read is forwarded only from the console's session.
pub fn client_followup(active: Result<u32, WinError>, key: u64, result: PipeTalkerResult) -> (r:
    ClientFollowUp)
    requires
        !(result is Connected),
    ensures
        match result {
            PipeTalkerResult::Read(m) => r matches ClientFollowUp::ReadAgain { message, forward } && message
                == m && forward == (m is Some && active is Ok && active->Ok_0 as u64 == key),
            _ => r is WriteQueued,
        },
{
    match result {
        PipeTalkerResult::Read(m) => {
            let forward = match &m {
                Some(_) => crate::win_service::forward_client_read(active, key),
                None => false,
            };
            ClientFollowUp::ReadAgain { message: m, forward }
        },
        _ => ClientFollowUp::WriteQueued,
    }
}

/// The caption of the running system among the rows of the query: the first row whose
/// caption is text.
pub fn first_caption(rows: &Vec<Option<String>>) -> (r: Option<String>)
    ensures
        match r {
            Some(c) => exists|i: int|
                0 <= i < rows@.len() && rows@[i] == Some(c) && forall|j: int|
                    0 <= j < i ==> rows@[j] is None,
            None => forall|j: int| 0 <= j < rows@.len() ==> rows@[j] is None,
        },
{
    let mut i: usize = 0;
    while i < rows.len()
        invariant
            i <= rows.len(),
            forall|j: int| 0 <= j < i ==> rows@[j] is None,
        decreases rows.len() - i,
    {
        match &rows[i] {
            Some(c) => {
                let r = c.clone();
                assert(rows@[i as int] == Some(r));
                return Some(r);
            },
            None => {},
        }
        i = i + 1;
    }
    None
}

} // verus!
