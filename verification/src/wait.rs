//! Waiting on handles and window messages at once: the flags of the wait and what its
//! result code means.
use vstd::prelude::*;

verus! {

/// The first handle is signaled.
pub const WAIT_OBJECT_0: u32 = 0;
/// The first handle is an abandoned mutex.
pub const WAIT_ABANDONED_0: u32 = 0x80;
/// The wait ended for an I/O completion routine.
pub const WAIT_IO_COMPLETION: u32 = 0xC0;
/// The wait timed out.
pub const WAIT_TIMEOUT: u32 = 0x102;
/// No time-out.
pub const INFINITE: u32 = 0xFFFF_FFFF;
/// How many handles a wait takes at most (and the window messages count as one more).
pub const MAXIMUM_WAIT_OBJECTS: u32 = 0x40;

/// Wait for all the handles at once.
pub const MWMO_WAITALL: u32 = 0x1;
/// Return for I/O completion routines.
pub const MWMO_ALERTABLE: u32 = 0x2;
/// Return while input is available, even if it was seen already.
pub const MWMO_INPUTAVAILABLE: u32 = 0x4;

/// What ended a wait.
#[derive(Clone, Copy, Debug, PartialEq, Eq, Structural)]
pub enum WindowedWaitResult {
    /// The handle at this position is signaled.
    Handle(u32),
    /// A window message is there.
    Input,
    /// The mutex at this position was abandoned.
    Abandoned(u32),
    IoCompletion,
    Timeout,
}

/// The flags of a wait.
pub open spec fn wait_flags_spec(alertable: bool, input_available: bool, wait_all: bool) -> u32 {
    ((if alertable {
        MWMO_ALERTABLE
    } else {
        0u32
    }) + (if input_available {
        MWMO_INPUTAVAILABLE
    } else {
        0u32
    }) + (if wait_all {
        MWMO_WAITALL
    } else {
        0u32
    })) as u32
}

pub fn wait_flags(alertable: bool, input_available: bool, wait_all: bool) -> (r: u32)
    ensures
        r == wait_flags_spec(alertable, input_available, wait_all),
{
    let mut flags: u32 = 0;
    if alertable {
        flags = flags + MWMO_ALERTABLE;
    }
    if input_available {
        flags = flags + MWMO_INPUTAVAILABLE;
    }
    if wait_all {
        flags = flags + MWMO_WAITALL;
    }
    flags
}

/// What a result code means for a wait on `count` handles; none when the wait failed.
pub open spec fn wait_meaning(result: u32, count: u32) -> Option<WindowedWaitResult> {
    if result == count {
        Some(WindowedWaitResult::Input)
    } else if WAIT_OBJECT_0 <= result < WAIT_OBJECT_0 + count {
        Some(WindowedWaitResult::Handle((result - WAIT_OBJECT_0) as u32))
    } else if WAIT_ABANDONED_0 <= result < WAIT_ABANDONED_0 + count {
        Some(WindowedWaitResult::Abandoned((result - WAIT_ABANDONED_0) as u32))
    } else if result == WAIT_IO_COMPLETION {
        Some(WindowedWaitResult::IoCompletion)
    } else if result == WAIT_TIMEOUT {
        Some(WindowedWaitResult::Timeout)
    } else {
        None
    }
}

/// What the result code of a wait on `count` handles means (`None`: the wait failed,
/// and the thread's last error says why).  An I/O completion only ends an alertable
/// wait, and a time-out only a finite one.
pub fn classify_wait(result: u32, count: u32, alertable: bool, timeout_msec: u32) -> (r: Option<
    WindowedWaitResult,
>)
    requires
        count < MAXIMUM_WAIT_OBJECTS,
        result == WAIT_IO_COMPLETION ==> alertable,
        result == WAIT_TIMEOUT ==> timeout_msec != INFINITE,
    ensures
        r == wait_meaning(result, count),
{
    if result == count {
        Some(WindowedWaitResult::Input)
    } else if result >= WAIT_OBJECT_0 && result < WAIT_OBJECT_0 + count {
        Some(WindowedWaitResult::Handle(result - WAIT_OBJECT_0))
    } else if result >= WAIT_ABANDONED_0 && result < WAIT_ABANDONED_0 + count {
        Some(WindowedWaitResult::Abandoned(result - WAIT_ABANDONED_0))
    } else if result == WAIT_IO_COMPLETION {
        Some(WindowedWaitResult::IoCompletion)
    } else if result == WAIT_TIMEOUT {
        Some(WindowedWaitResult::Timeout)
    } else {
        None
    }
}

} // verus!
