//! The driver's bookkeeping of remote jobs: how the events of the job
//! service update a job's status, and how waiting for a job decides, from
//! each status it sees or a timeout, to wait on, to stop with the job's
//! result, or to fail.

use crate::encoding::{string_from_utf8_lossy, utf8_lossy};
use crate::job::{command_code, event_code, Command, CommandKind, EventKind};
use crate::value::{FunctionExt, Value};
use vstd::prelude::*;

verus! {

/// The status of a remote job, as the events about it report it.
#[derive(Debug, Clone)]
pub enum JobStatus {
    Unknown,
    Created,
    CreateFailed { err: String },
    Ready,
    Initialized,
    InitializeFailed { err: String },
    Started,
    StartFailed { err: String },
    Completed,
    CompleteFailed { err: String },
    DecodeFailed { err: String },
    Failed { res: String },
    Stopped { signal: String },
    Finished { res: String },
}

/// Which of the statuses a status is, whatever it carries.
pub open spec fn status_tag(s: JobStatus) -> int {
    match s {
        JobStatus::Unknown => 0,
        JobStatus::Created => 1,
        JobStatus::CreateFailed { .. } => 2,
        JobStatus::Ready => 3,
        JobStatus::Initialized => 4,
        JobStatus::InitializeFailed { .. } => 5,
        JobStatus::Started => 6,
        JobStatus::StartFailed { .. } => 7,
        JobStatus::Completed => 8,
        JobStatus::CompleteFailed { .. } => 9,
        JobStatus::DecodeFailed { .. } => 10,
        JobStatus::Failed { .. } => 11,
        JobStatus::Stopped { .. } => 12,
        JobStatus::Finished { .. } => 13,
    }
}

/// The statuses a job waits on: those that are neither final nor failed.
pub open spec fn waiting(s: JobStatus) -> bool {
    ||| s is Unknown
    ||| s is Created
    ||| s is Ready
    ||| s is Initialized
    ||| s is Started
    ||| s is Completed
}

/// How long, in milliseconds, a job may stay in a status it waits on
/// before it is given up: to be created, to report ready, to initialize,
/// to start, between heartbeats, and to send its result.
pub open spec fn timeout_of(s: JobStatus) -> u128 {
    match s {
        JobStatus::Unknown => 60000,
        JobStatus::Created => 60000,
        JobStatus::Ready => 30000,
        JobStatus::Initialized => 10000,
        JobStatus::Started => 10000,
        JobStatus::Completed => 30000,
        _ => 0,
    }
}

impl JobStatus {
    /// Returns whether the two statuses are of one kind, whatever they
    /// carry.
    pub fn same_kind(&self, other: &JobStatus) -> (r: bool)
        ensures
            r == (status_tag(*self) == status_tag(*other)),
    {
        self.tag() == other.tag()
    }

    /// The number of the status's kind.
    fn tag(&self) -> (r: u8)
        ensures
            r as int == status_tag(*self),
    {
        match self {
            JobStatus::Unknown => 0,
            JobStatus::Created => 1,
            JobStatus::CreateFailed { .. } => 2,
            JobStatus::Ready => 3,
            JobStatus::Initialized => 4,
            JobStatus::InitializeFailed { .. } => 5,
            JobStatus::Started => 6,
            JobStatus::StartFailed { .. } => 7,
            JobStatus::Completed => 8,
            JobStatus::CompleteFailed { .. } => 9,
            JobStatus::DecodeFailed { .. } => 10,
            JobStatus::Failed { .. } => 11,
            JobStatus::Stopped { .. } => 12,
            JobStatus::Finished { .. } => 13,
        }
    }
}

/// The errors of waiting for a job: it failed, or a status did not come in
/// time.
#[derive(Debug)]
pub enum ScheduleError {
    JobCreatedTimeout { correlation_id: String },
    JobCreateFailed { correlation_id: String, err: String },
    JobReadyTimeout { correlation_id: String },
    JobInitializedTimeout { correlation_id: String },
    JobInitializeFailed { correlation_id: String, err: String },
    JobStartedTimeout { correlation_id: String },
    JobStartFailed { correlation_id: String, err: String },
    JobHeartbeatTimeout { correlation_id: String },
    JobCompleteFailed { correlation_id: String, err: String },
    JobResultTimeout { correlation_id: String },
    JobDecodeFailed { correlation_id: String, err: String },
    JobStopped { correlation_id: String, signal: String },
}

/// Returns how long a job may stay in a status it waits on.
pub fn wait_timeout(last: &JobStatus) -> (r: u128)
    requires
        waiting(*last),
    ensures
        r == timeout_of(*last),
{
    match last {
        JobStatus::Unknown => 60000,
        JobStatus::Created => 60000,
        JobStatus::Ready => 30000,
        JobStatus::Initialized => 10000,
        JobStatus::Started => 10000,
        _ => 30000,
    }
}

/// Returns whether waiting in the status counts time from the job's last
/// heartbeat: only a started job sends heartbeats.
pub fn uses_heartbeats(last: &JobStatus) -> (r: bool)
    ensures
        r == last is Started,
{
    match last {
        JobStatus::Started => true,
        _ => false,
    }
}

/// What one look at a job gives while waiting for a new status.
#[derive(Debug)]
pub enum PollOutcome {
    /// The job's status is of another kind than the one waited in.
    Changed(JobStatus),
    /// No new status came within the timeout.
    TimedOut,
    /// Look again.
    Pending,
}

/// Decides one look at a job waiting in `current`: the status the event
/// monitor holds for it, if any, and the milliseconds since the wait began
/// or since the job's last heartbeat.
pub fn poll_decision(current: &JobStatus, seen: Option<JobStatus>, elapsed_ms: u128, timeout: u128) -> (r: PollOutcome)
    ensures
        match seen {
            Some(s) if status_tag(s) != status_tag(*current) => r == PollOutcome::Changed(s),
            _ => if elapsed_ms >= timeout {
                r is TimedOut
            } else {
                r is Pending
            },
        },
{
    match seen {
        Some(s) => {
            if !s.same_kind(current) {
                return PollOutcome::Changed(s);
            }
        },
        None => {},
    }
    if elapsed_ms >= timeout {
        PollOutcome::TimedOut
    } else {
        PollOutcome::Pending
    }
}

/// The outcome of waiting for a job to be created: any status but a failed
/// creation will do; none in time is a timeout.
pub open spec fn created_result(cid: Seq<char>, observed: Option<JobStatus>, r: Result<(), ScheduleError>) -> bool {
    match observed {
        Some(JobStatus::CreateFailed { err }) => r matches Err(ScheduleError::JobCreateFailed { correlation_id: c, err: e })
            && c@ == cid && e == err,
        Some(_) => r is Ok,
        None => r matches Err(ScheduleError::JobCreatedTimeout { correlation_id: c }) && c@ == cid,
    }
}

/// Decides the wait for a job's creation from the new status seen, or none
/// for a timeout.
pub fn created_outcome(correlation_id: &str, observed: Option<JobStatus>) -> (r: Result<(), ScheduleError>)
    ensures
        created_result(correlation_id@, observed, r),
{
    match observed {
        Some(JobStatus::CreateFailed { err }) => Err(ScheduleError::JobCreateFailed { correlation_id: String::from_str(correlation_id), err }),
        Some(_) => Ok(()),
        None => Err(ScheduleError::JobCreatedTimeout { correlation_id: String::from_str(correlation_id) }),
    }
}

/// What waiting for a job's result does after one wait for a new status.
#[derive(Debug)]
pub enum WaitStep {
    /// Wait again, in this status.
    Wait(JobStatus),
    /// The job finished; its result is the text of a value.
    Finished { res: String },
    /// The job failed; the text describes its exit code and output.
    Failed { res: String },
    /// The job failed or timed out.
    Error(ScheduleError),
}

/// The error of a timeout in a status a job waits on.
pub open spec fn timeout_error(cid: Seq<char>, last: JobStatus, e: ScheduleError) -> bool {
    match last {
        JobStatus::Unknown => e matches ScheduleError::JobCreatedTimeout { correlation_id: c } && c@ == cid,
        JobStatus::Created => e matches ScheduleError::JobReadyTimeout { correlation_id: c } && c@ == cid,
        JobStatus::Ready => e matches ScheduleError::JobInitializedTimeout { correlation_id: c } && c@ == cid,
        JobStatus::Initialized => e matches ScheduleError::JobStartedTimeout { correlation_id: c } && c@ == cid,
        JobStatus::Started => e matches ScheduleError::JobHeartbeatTimeout { correlation_id: c } && c@ == cid,
        _ => e matches ScheduleError::JobResultTimeout { correlation_id: c } && c@ == cid,
    }
}

/// What waiting does with the new status seen, or with a timeout: a
/// finished or failed job ends the wait with its result, a job that failed
/// at a step, was stopped or whose output could not be decoded ends it
/// with an error, a timeout ends it with the error of the status waited
/// in, and any other status is waited in next.
pub open spec fn wait_result(cid: Seq<char>, last: JobStatus, observed: Option<JobStatus>, r: WaitStep) -> bool {
    match observed {
        Some(JobStatus::Finished { res }) => r == WaitStep::Finished { res },
        Some(JobStatus::Failed { res }) => r == WaitStep::Failed { res },
        Some(JobStatus::Stopped { signal }) => r matches WaitStep::Error(ScheduleError::JobStopped { correlation_id: c, signal: s })
            && c@ == cid && s == signal,
        Some(JobStatus::DecodeFailed { err }) => r matches WaitStep::Error(ScheduleError::JobDecodeFailed { correlation_id: c, err: e })
            && c@ == cid && e == err,
        Some(JobStatus::CompleteFailed { err }) => r matches WaitStep::Error(
            ScheduleError::JobCompleteFailed { correlation_id: c, err: e },
        ) && c@ == cid && e == err,
        Some(JobStatus::StartFailed { err }) => r matches WaitStep::Error(ScheduleError::JobStartFailed { correlation_id: c, err: e })
            && c@ == cid && e == err,
        Some(JobStatus::InitializeFailed { err }) => r matches WaitStep::Error(
            ScheduleError::JobInitializeFailed { correlation_id: c, err: e },
        ) && c@ == cid && e == err,
        Some(JobStatus::CreateFailed { err }) => r matches WaitStep::Error(ScheduleError::JobCreateFailed { correlation_id: c, err: e })
            && c@ == cid && e == err,
        Some(s) => r == WaitStep::Wait(s),
        None => r matches WaitStep::Error(e) && timeout_error(cid, last, e),
    }
}

/// Decides what waiting for a job's result does after waiting in `last`:
/// with the new status seen, or none for a timeout.
///
/// A job waits only in a status that is neither final nor failed.
pub fn wait_step(correlation_id: &str, last: &JobStatus, observed: Option<JobStatus>) -> (r: WaitStep)
    requires
        waiting(*last),
    ensures
        wait_result(correlation_id@, *last, observed, r),
{
    let cid = String::from_str(correlation_id);
    match observed {
        Some(JobStatus::Finished { res }) => WaitStep::Finished { res },
        Some(JobStatus::Failed { res }) => WaitStep::Failed { res },
        Some(JobStatus::Stopped { signal }) => WaitStep::Error(ScheduleError::JobStopped { correlation_id: cid, signal }),
        Some(JobStatus::DecodeFailed { err }) => WaitStep::Error(ScheduleError::JobDecodeFailed { correlation_id: cid, err }),
        Some(JobStatus::CompleteFailed { err }) => WaitStep::Error(ScheduleError::JobCompleteFailed { correlation_id: cid, err }),
        Some(JobStatus::StartFailed { err }) => WaitStep::Error(ScheduleError::JobStartFailed { correlation_id: cid, err }),
        Some(JobStatus::InitializeFailed { err }) => WaitStep::Error(ScheduleError::JobInitializeFailed { correlation_id: cid, err }),
        Some(JobStatus::CreateFailed { err }) => WaitStep::Error(ScheduleError::JobCreateFailed { correlation_id: cid, err }),
        Some(s) => WaitStep::Wait(s),
        None => WaitStep::Error(
            match last {
                JobStatus::Unknown => ScheduleError::JobCreatedTimeout { correlation_id: cid },
                JobStatus::Created => ScheduleError::JobReadyTimeout { correlation_id: cid },
                JobStatus::Ready => ScheduleError::JobInitializedTimeout { correlation_id: cid },
                JobStatus::Initialized => ScheduleError::JobStartedTimeout { correlation_id: cid },
                JobStatus::Started => ScheduleError::JobHeartbeatTimeout { correlation_id: cid },
                _ => ScheduleError::JobResultTimeout { correlation_id: cid },
            },
        ),
    }
}

/// A waiting step that waits again waits in a status that is neither final
/// nor failed, so that the next step may be decided.
pub proof fn law_wait_stays_waiting(cid: Seq<char>, last: JobStatus, observed: Option<JobStatus>, r: WaitStep)
    requires
        waiting(last),
        wait_result(cid, last, observed, r),
    ensures
        r matches WaitStep::Wait(s) ==> waiting(s),
{
}

/// The identifier of the job an event is about: the part of the event's
/// identifier before its first `-`.
pub open spec fn correlation_of(identifier: Seq<char>) -> Seq<char> {
    if exists|i: int| 0 <= i < identifier.len() && identifier[i] == '-' {
        identifier.subrange(
            0,
            choose|i: int| 0 <= i < identifier.len() && identifier[i] == '-' && forall|j: int| 0 <= j < i ==> identifier[j] != '-',
        )
    } else {
        identifier
    }
}

/// Returns the identifier of the job an event is about.
pub fn correlation_id(identifier: &str) -> (r: String)
    ensures
        r@ == correlation_of(identifier@),
{
    let n = identifier.unicode_len();
    let mut i: usize = 0;
    while i < n
        invariant
            i <= n,
            n == identifier@.len(),
            forall|j: int| 0 <= j < i ==> identifier@[j] != '-',
        decreases n - i,
    {
        if identifier.get_char(i) == '-' {
            let ghost k = choose|k: int|
                0 <= k < identifier@.len() && identifier@[k] == '-' && forall|j: int| 0 <= j < k ==> identifier@[j] != '-';
            assert(k == i) by {
                if k < i {
                    assert(identifier@[k] != '-');
                }
                if k > i {
                    assert(identifier@[i as int] != '-');
                }
            }
            return String::from_str(identifier.substring_char(0, i));
        }
        i = i + 1;
    }
    String::from_str(identifier)
}

/// What an event changes in the driver's records of a job.
#[derive(Debug)]
pub enum Change {
    /// The job has the status.
    Status(JobStatus),
    /// The job was created, at the location: its status is `Created`.
    Created { location: String },
    /// A heartbeat came in now.
    Heartbeat,
}

/// The kinds of event the driver records: all but those of no job.
pub open spec fn monitored(kind: i32) -> bool {
    exists|k: EventKind| event_code(k) == kind && !(k is Unknown || k is Connected || k is Disconnected)
}

/// The change an event of the kind makes, its payload given as text.
pub open spec fn change_of(kind: i32, location: Seq<char>, text: String, c: Change) -> bool {
    if kind == event_code(EventKind::CreateFailed) {
        c == Change::Status(JobStatus::CreateFailed { err: text })
    } else if kind == event_code(EventKind::Created) {
        c matches Change::Created { location: l } && l@ == location
    } else if kind == event_code(EventKind::Ready) {
        c == Change::Status(JobStatus::Ready)
    } else if kind == event_code(EventKind::InitializeFailed) {
        c == Change::Status(JobStatus::InitializeFailed { err: text })
    } else if kind == event_code(EventKind::Initialized) {
        c == Change::Status(JobStatus::Initialized)
    } else if kind == event_code(EventKind::StartFailed) {
        c == Change::Status(JobStatus::StartFailed { err: text })
    } else if kind == event_code(EventKind::Started) {
        c == Change::Status(JobStatus::Started)
    } else if kind == event_code(EventKind::Heartbeat) {
        c == Change::Heartbeat
    } else if kind == event_code(EventKind::CompleteFailed) {
        c == Change::Status(JobStatus::CompleteFailed { err: text })
    } else if kind == event_code(EventKind::Completed) {
        c == Change::Status(JobStatus::Completed)
    } else if kind == event_code(EventKind::DecodeFailed) {
        c == Change::Status(JobStatus::DecodeFailed { err: text })
    } else if kind == event_code(EventKind::Failed) {
        c == Change::Status(JobStatus::Failed { res: text })
    } else if kind == event_code(EventKind::Stopped) {
        c == Change::Status(JobStatus::Stopped { signal: text })
    } else {
        c == Change::Status(JobStatus::Finished { res: text })
    }
}

/// Decides what an event changes: the job it is about, and its new status,
/// its creation at the event's location, or a heartbeat. The payload, as
/// text, is the error of a failure, the result of a finished or failed job,
/// and the signal that stopped one.
pub fn monitor_event(kind: i32, identifier: &str, location: &str, text: String) -> (r: (String, Change))
    requires
        monitored(kind),
    ensures
        r.0@ == correlation_of(identifier@),
        change_of(kind, location@, text, r.1),
{
    let cid = correlation_id(identifier);
    let k = match EventKind::from_i32(kind) {
        Some(k) => k,
        None => vstd::pervasive::unreached(),
    };
    let change = match k {
        EventKind::CreateFailed => Change::Status(JobStatus::CreateFailed { err: text }),
        EventKind::Created => Change::Created { location: String::from_str(location) },
        EventKind::Ready => Change::Status(JobStatus::Ready),
        EventKind::InitializeFailed => Change::Status(JobStatus::InitializeFailed { err: text }),
        EventKind::Initialized => Change::Status(JobStatus::Initialized),
        EventKind::StartFailed => Change::Status(JobStatus::StartFailed { err: text }),
        EventKind::Started => Change::Status(JobStatus::Started),
        EventKind::Heartbeat => Change::Heartbeat,
        EventKind::CompleteFailed => Change::Status(JobStatus::CompleteFailed { err: text }),
        EventKind::Completed => Change::Status(JobStatus::Completed),
        EventKind::DecodeFailed => Change::Status(JobStatus::DecodeFailed { err: text }),
        EventKind::Failed => Change::Status(JobStatus::Failed { res: text }),
        EventKind::Stopped => Change::Status(JobStatus::Stopped { signal: text }),
        EventKind::Finished => Change::Status(JobStatus::Finished { res: text }),
        _ => vstd::pervasive::unreached(),
    };
    (cid, change)
}

/// The image that runs an external function: its package, version and
/// digest.
pub fn job_image(function: &FunctionExt) -> (r: String)
    ensures
        r@ == function.package@ + ":"@ + function.version@ + "@"@ + function.digest@,
{
    let mut image = crate::objects::join3(function.package.as_str(), ":", function.version.as_str());
    image.append("@");
    image.append(function.digest.as_str());
    image
}

/// The identifier of a job that a call starts: `A`, the first eight
/// characters of the session's identifier, `R`, and a random part.
pub fn call_correlation_id(session: &str, random: &str) -> (r: String)
    requires
        session@.len() >= 8,
    ensures
        r@ == "A"@ + session@.subrange(0, 8) + "R"@ + random@,
{
    let mut id = crate::objects::join3("A", session.substring_char(0, 8), "R");
    id.append(random);
    id
}

/// The command that starts a job for an external call: created under the
/// job's identifier, for the session, at the location if one is given,
/// running the function's image with its kind, its name and its encoded
/// arguments, without mounts.
pub fn external_command(
    function: &FunctionExt,
    encoded_arguments: String,
    correlation_id: String,
    session: String,
    location: Option<String>,
) -> (r: Command)
    ensures
        r.kind == command_code(CommandKind::Create),
        r.identifier == Some(correlation_id),
        r.application == Some(session),
        r.location == location,
        r.image matches Some(i) && i@ == function.package@ + ":"@ + function.version@ + "@"@ + function.digest@,
        r.command@.len() == 3,
        r.command@[0]@ == function.kind@,
        r.command@[1]@ == function.name@,
        r.command@[2] == encoded_arguments,
        r.mounts@.len() == 0,
{
    let mut command: Vec<String> = Vec::new();
    command.push(function.kind.clone());
    command.push(function.name.clone());
    command.push(encoded_arguments);
    Command::new(CommandKind::Create, Some(correlation_id), Some(session), location, Some(job_image(function)), command, None)
}

/// The value a detached call returns: a service of the job's identifier and
/// the address of the location it runs at.
pub fn service_value(correlation_id: String, address: String) -> (r: Value)
    ensures
        r matches Value::Struct { data_type, properties } && data_type@ == "Service"@ && properties@.len() == 2
            && properties@[0].0@ == "identifier"@ && properties@[0].1 == Value::Unicode(correlation_id)
            && properties@[1].0@ == "address"@ && properties@[1].1 == Value::Unicode(address),
{
    let mut properties: Vec<(String, Value)> = Vec::new();
    properties.push((String::from_str("identifier"), Value::Unicode(correlation_id)));
    properties.push((String::from_str("address"), Value::Unicode(address)));
    Value::Struct { data_type: String::from_str("Service"), properties }
}


/// Decides what an event changes, as `monitor_event` does, with the
/// payload read as UTF-8 text, invalid sequences replaced.
pub fn monitor_event_payload(kind: i32, identifier: &str, location: &str, payload: &Vec<u8>) -> (r: (String, Change))
    requires
        monitored(kind),
    ensures
        r.0@ == correlation_of(identifier@),
        exists|text: String| text@ == utf8_lossy(payload@) && change_of(kind, location@, text, r.1),
        vstd::utf8::valid_utf8(payload@) ==> exists|text: String|
            text@ == vstd::utf8::decode_utf8(payload@) && change_of(kind, location@, text, r.1),
{
    let text = string_from_utf8_lossy(payload.as_slice());
    let ghost t = text;
    let r = monitor_event(kind, identifier, location, text);
    proof {
        assert(change_of(kind, location@, t, r.1));
    }
    r
}

} // verus!
