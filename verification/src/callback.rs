//! Callbacks: the messages a running job sends about its progress.

use vstd::prelude::*;

verus! {

/// The kinds of callback.
#[derive(Debug, Clone, Copy, PartialEq, Eq, Structural)]
pub enum CallbackKind {
    Unknown,
    Ready,
    InitializeFailed,
    Initialized,
    StartFailed,
    Started,
    Heartbeat,
    CompleteFailed,
    Completed,
    DecodeFailed,
    Stopped,
    Failed,
    Finished,
}

/// The number that stands for a callback kind on the wire.
pub open spec fn callback_code(k: CallbackKind) -> i32 {
    match k {
        CallbackKind::Unknown => 0,
        CallbackKind::Ready => 1,
        CallbackKind::InitializeFailed => 2,
        CallbackKind::Initialized => 3,
        CallbackKind::StartFailed => 4,
        CallbackKind::Started => 5,
        CallbackKind::Heartbeat => 6,
        CallbackKind::CompleteFailed => 7,
        CallbackKind::Completed => 8,
        CallbackKind::DecodeFailed => 9,
        CallbackKind::Stopped => 10,
        CallbackKind::Failed => 11,
        CallbackKind::Finished => 12,
    }
}

/// The callback kind a number stands for, if any.
pub open spec fn callback_kind_of(code: i32) -> Option<CallbackKind> {
    if code == 0 {
        Some(CallbackKind::Unknown)
    } else if code == 1 {
        Some(CallbackKind::Ready)
    } else if code == 2 {
        Some(CallbackKind::InitializeFailed)
    } else if code == 3 {
        Some(CallbackKind::Initialized)
    } else if code == 4 {
        Some(CallbackKind::StartFailed)
    } else if code == 5 {
        Some(CallbackKind::Started)
    } else if code == 6 {
        Some(CallbackKind::Heartbeat)
    } else if code == 7 {
        Some(CallbackKind::CompleteFailed)
    } else if code == 8 {
        Some(CallbackKind::Completed)
    } else if code == 9 {
        Some(CallbackKind::DecodeFailed)
    } else if code == 10 {
        Some(CallbackKind::Stopped)
    } else if code == 11 {
        Some(CallbackKind::Failed)
    } else if code == 12 {
        Some(CallbackKind::Finished)
    } else {
        None
    }
}

impl CallbackKind {
    /// Returns the number that stands for the kind.
    pub fn to_i32(&self) -> (r: i32)
        ensures
            r == callback_code(*self),
    {
        match self {
            CallbackKind::Unknown => 0,
            CallbackKind::Ready => 1,
            CallbackKind::InitializeFailed => 2,
            CallbackKind::Initialized => 3,
            CallbackKind::StartFailed => 4,
            CallbackKind::Started => 5,
            CallbackKind::Heartbeat => 6,
            CallbackKind::CompleteFailed => 7,
            CallbackKind::Completed => 8,
            CallbackKind::DecodeFailed => 9,
            CallbackKind::Stopped => 10,
            CallbackKind::Failed => 11,
            CallbackKind::Finished => 12,
        }
    }

    /// Returns the kind a number stands for, if any.
    pub fn from_i32(code: i32) -> (r: Option<CallbackKind>)
        ensures
            r == callback_kind_of(code),
    {
        match code {
            0 => Some(CallbackKind::Unknown),
            1 => Some(CallbackKind::Ready),
            2 => Some(CallbackKind::InitializeFailed),
            3 => Some(CallbackKind::Initialized),
            4 => Some(CallbackKind::StartFailed),
            5 => Some(CallbackKind::Started),
            6 => Some(CallbackKind::Heartbeat),
            7 => Some(CallbackKind::CompleteFailed),
            8 => Some(CallbackKind::Completed),
            9 => Some(CallbackKind::DecodeFailed),
            10 => Some(CallbackKind::Stopped),
            11 => Some(CallbackKind::Failed),
            12 => Some(CallbackKind::Finished),
            _ => None,
        }
    }

    /// Returns the kind's name in capitals.
    pub fn name(&self) -> (r: &'static str)
        ensures
            r@ == callback_name(*self),
    {
        proof {
            reveal_strlit("UNKNOWN");
            reveal_strlit("READY");
            reveal_strlit("INITIALIZEFAILED");
            reveal_strlit("INITIALIZED");
            reveal_strlit("STARTFAILED");
            reveal_strlit("STARTED");
            reveal_strlit("HEARTBEAT");
            reveal_strlit("COMPLETEFAILED");
            reveal_strlit("COMPLETED");
            reveal_strlit("DECODEFAILED");
            reveal_strlit("STOPPED");
            reveal_strlit("FAILED");
            reveal_strlit("FINISHED");
        }
        match self {
            CallbackKind::Unknown => "UNKNOWN",
            CallbackKind::Ready => "READY",
            CallbackKind::InitializeFailed => "INITIALIZEFAILED",
            CallbackKind::Initialized => "INITIALIZED",
            CallbackKind::StartFailed => "STARTFAILED",
            CallbackKind::Started => "STARTED",
            CallbackKind::Heartbeat => "HEARTBEAT",
            CallbackKind::CompleteFailed => "COMPLETEFAILED",
            CallbackKind::Completed => "COMPLETED",
            CallbackKind::DecodeFailed => "DECODEFAILED",
            CallbackKind::Stopped => "STOPPED",
            CallbackKind::Failed => "FAILED",
            CallbackKind::Finished => "FINISHED",
        }
    }
}

/// The name of a callback kind in capitals.
pub open spec fn callback_name(k: CallbackKind) -> Seq<char> {
    match k {
        CallbackKind::Unknown => "UNKNOWN"@,
        CallbackKind::Ready => "READY"@,
        CallbackKind::InitializeFailed => "INITIALIZEFAILED"@,
        CallbackKind::Initialized => "INITIALIZED"@,
        CallbackKind::StartFailed => "STARTFAILED"@,
        CallbackKind::Started => "STARTED"@,
        CallbackKind::Heartbeat => "HEARTBEAT"@,
        CallbackKind::CompleteFailed => "COMPLETEFAILED"@,
        CallbackKind::Completed => "COMPLETED"@,
        CallbackKind::DecodeFailed => "DECODEFAILED"@,
        CallbackKind::Stopped => "STOPPED"@,
        CallbackKind::Failed => "FAILED"@,
        CallbackKind::Finished => "FINISHED"@,
    }
}

/// A callback from a job.
#[derive(Debug, Clone)]
pub struct Callback {
    pub kind: i32,
    pub job: String,
    pub application: String,
    pub location: String,
    pub order: i32,
    pub payload: Vec<u8>,
}

impl Callback {
    /// Makes a callback.
    pub fn new(kind: CallbackKind, job: String, application: String, location: String, order: i32, payload: Vec<u8>) -> (r: Callback)
        ensures
            r.kind == callback_code(kind),
            r.job == job,
            r.application == application,
            r.location == location,
            r.order == order,
            r.payload == payload,
    {
        Callback { kind: kind.to_i32(), job, application, location, order, payload }
    }
}

/// The wire number of a callback kind reads back as that kind, and a number
/// that reads as a kind is that kind's number.
pub proof fn law_callback_code_roundtrip(k: CallbackKind, code: i32)
    ensures
        callback_kind_of(callback_code(k)) == Some(k),
        callback_kind_of(code) == Some(k) ==> callback_code(k) == code,
{
}

} // verus!
