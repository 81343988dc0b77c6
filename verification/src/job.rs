//! Jobs: the commands that ask for one, the events that report on it, and
//! the decisions made on a command before it is handed to a location.

use crate::callback::{callback_kind_of, Callback, CallbackKind};
use crate::cli::{char_alphanumeric, is_alphanumeric};
use crate::encoding::{base64_decoded, decode_base64, string_from_utf8};
use crate::infra::{credentials_resolved, Location, LocationCredentials, SecretsDocument};
use vstd::prelude::*;

verus! {

/// The kinds of command.
#[derive(Debug, Clone, Copy, PartialEq, Eq, Structural)]
pub enum CommandKind {
    Unknown,
    Create,
    Stop,
}

/// The number that stands for a command kind on the wire.
pub open spec fn command_code(k: CommandKind) -> i32 {
    match k {
        CommandKind::Unknown => 0,
        CommandKind::Create => 1,
        CommandKind::Stop => 3,
    }
}

/// The command kind a number stands for, if any.
pub open spec fn command_kind_of(code: i32) -> Option<CommandKind> {
    if code == 0 {
        Some(CommandKind::Unknown)
    } else if code == 1 {
        Some(CommandKind::Create)
    } else if code == 3 {
        Some(CommandKind::Stop)
    } else {
        None
    }
}

/// The name of a command kind in capitals.
pub open spec fn command_name(k: CommandKind) -> Seq<char> {
    match k {
        CommandKind::Unknown => "UNKNOWN"@,
        CommandKind::Create => "CREATE"@,
        CommandKind::Stop => "STOP"@,
    }
}

impl CommandKind {
    /// Returns the number that stands for the kind.
    pub fn to_i32(&self) -> (r: i32)
        ensures
            r == command_code(*self),
    {
        match self {
            CommandKind::Unknown => 0,
            CommandKind::Create => 1,
            CommandKind::Stop => 3,
        }
    }

    /// Returns the kind a number stands for, if any.
    pub fn from_i32(code: i32) -> (r: Option<CommandKind>)
        ensures
            r == command_kind_of(code),
    {
        match code {
            0 => Some(CommandKind::Unknown),
            1 => Some(CommandKind::Create),
            3 => Some(CommandKind::Stop),
            _ => None,
        }
    }

    /// Returns the kind's name in capitals.
    pub fn name(&self) -> (r: &'static str)
        ensures
            r@ == command_name(*self),
    {
        proof {
            reveal_strlit("UNKNOWN");
            reveal_strlit("CREATE");
            reveal_strlit("STOP");
        }
        match self {
            CommandKind::Unknown => "UNKNOWN",
            CommandKind::Create => "CREATE",
            CommandKind::Stop => "STOP",
        }
    }
}

/// A directory to mount in a job's container.
#[derive(Debug, Clone)]
pub struct Mount {
    pub source: String,
    pub destination: String,
}

impl Mount {
    /// Makes a mount.
    pub fn new(source: String, destination: String) -> (r: Mount)
        ensures
            r.source == source,
            r.destination == destination,
    {
        Mount { source, destination }
    }
}

/// A command for the job service.
#[derive(Debug, Clone)]
pub struct Command {
    pub kind: i32,
    pub identifier: Option<String>,
    pub application: Option<String>,
    pub location: Option<String>,
    pub image: Option<String>,
    pub command: Vec<String>,
    pub mounts: Vec<Mount>,
}

impl Command {
    /// Makes a command; no mounts stands for an empty list.
    pub fn new(
        kind: CommandKind,
        identifier: Option<String>,
        application: Option<String>,
        location: Option<String>,
        image: Option<String>,
        command: Vec<String>,
        mounts: Option<Vec<Mount>>,
    ) -> (r: Command)
        ensures
            r.kind == command_code(kind),
            r.identifier == identifier,
            r.application == application,
            r.location == location,
            r.image == image,
            r.command == command,
            match mounts {
                Some(m) => r.mounts == m,
                None => r.mounts@.len() == 0,
            },
    {
        let mounts = match mounts {
            Some(m) => m,
            None => Vec::new(),
        };
        Command { kind: kind.to_i32(), identifier, application, location, image, command, mounts }
    }
}

/// The kinds of event.
#[derive(Debug, Clone, Copy, PartialEq, Eq, Structural)]
pub enum EventKind {
    Unknown,
    Created,
    CreateFailed,
    Ready,
    Initialized,
    InitializeFailed,
    Started,
    StartFailed,
    Heartbeat,
    CompleteFailed,
    Completed,
    DecodeFailed,
    Failed,
    Stopped,
    Finished,
    Connected,
    Disconnected,
}

/// The number that stands for an event kind on the wire: failures are
/// negative.
pub open spec fn event_code(k: EventKind) -> i32 {
    match k {
        EventKind::Unknown => 0,
        EventKind::Created => 1,
        EventKind::CreateFailed => -1i32,
        EventKind::Ready => 2,
        EventKind::Initialized => 3,
        EventKind::InitializeFailed => -3i32,
        EventKind::Started => 4,
        EventKind::StartFailed => -4i32,
        EventKind::Heartbeat => 5,
        EventKind::CompleteFailed => -6i32,
        EventKind::Completed => 6,
        EventKind::DecodeFailed => -8i32,
        EventKind::Failed => -10i32,
        EventKind::Stopped => 9,
        EventKind::Finished => 10,
        EventKind::Connected => 11,
        EventKind::Disconnected => 12,
    }
}

impl EventKind {
    /// Returns the number that stands for the kind.
    pub fn to_i32(&self) -> (r: i32)
        ensures
            r == event_code(*self),
    {
        match self {
            EventKind::Unknown => 0,
            EventKind::Created => 1,
            EventKind::CreateFailed => -1,
            EventKind::Ready => 2,
            EventKind::Initialized => 3,
            EventKind::InitializeFailed => -3,
            EventKind::Started => 4,
            EventKind::StartFailed => -4,
            EventKind::Heartbeat => 5,
            EventKind::CompleteFailed => -6,
            EventKind::Completed => 6,
            EventKind::DecodeFailed => -8,
            EventKind::Failed => -10,
            EventKind::Stopped => 9,
            EventKind::Finished => 10,
            EventKind::Connected => 11,
            EventKind::Disconnected => 12,
        }
    }

    /// Returns the kind a number stands for, if any.
    pub fn from_i32(code: i32) -> (r: Option<EventKind>)
        ensures
            match r {
                Some(k) => event_code(k) == code,
                None => forall|k: EventKind| event_code(k) != code,
            },
    {
        match code {
            0 => Some(EventKind::Unknown),
            1 => Some(EventKind::Created),
            -1 => Some(EventKind::CreateFailed),
            2 => Some(EventKind::Ready),
            3 => Some(EventKind::Initialized),
            -3 => Some(EventKind::InitializeFailed),
            4 => Some(EventKind::Started),
            -4 => Some(EventKind::StartFailed),
            5 => Some(EventKind::Heartbeat),
            -6 => Some(EventKind::CompleteFailed),
            6 => Some(EventKind::Completed),
            -8 => Some(EventKind::DecodeFailed),
            -10 => Some(EventKind::Failed),
            9 => Some(EventKind::Stopped),
            10 => Some(EventKind::Finished),
            11 => Some(EventKind::Connected),
            12 => Some(EventKind::Disconnected),
            _ => None,
        }
    }
}

/// An event about a job.
#[derive(Debug, Clone)]
pub struct Event {
    pub kind: i32,
    pub identifier: String,
    pub application: String,
    pub location: String,
    pub category: String,
    pub order: u32,
    pub payload: Vec<u8>,
    pub timestamp: i64,
}

/// `time::OffsetDateTime::now_utc().unix_timestamp()`: the current time in
/// seconds since the Unix epoch. It depends on the clock, so nothing is
/// stated of it.
#[verifier::external_body]
fn now_unix_timestamp() -> (r: i64) {
    time::OffsetDateTime::now_utc().unix_timestamp()
}

impl Event {
    /// Makes an event; no payload stands for an empty one, and no timestamp
    /// for the current time.
    pub fn new(
        kind: EventKind,
        identifier: String,
        application: String,
        location: String,
        category: String,
        order: u32,
        payload: Option<Vec<u8>>,
        timestamp: Option<i64>,
    ) -> (r: Event)
        ensures
            r.kind == event_code(kind),
            r.identifier == identifier,
            r.application == application,
            r.location == location,
            r.category == category,
            r.order == order,
            match payload {
                Some(p) => r.payload == p,
                None => r.payload@.len() == 0,
            },
            timestamp matches Some(t) ==> r.timestamp == t,
    {
        let timestamp = match timestamp {
            Some(t) => t,
            None => now_unix_timestamp(),
        };
        let payload = match payload {
            Some(p) => p,
            None => Vec::new(),
        };
        Event { kind: kind.to_i32(), identifier, application, location, category, order, payload, timestamp }
    }
}

/// The result of a job that failed, for the driver.
#[derive(Debug, Clone)]
pub struct FailureResult {
    pub code: i32,
    pub stdout: String,
    pub stderr: String,
}

/// The errors of the job service's decisions.
#[derive(Debug)]
pub enum JobError {
    /// A command lacks a field it needs.
    IllegalCommandError { key: String, kind: String, field: String },
    /// A callback's kind is no known kind.
    IllegalCallbackKind { kind: i32 },
    /// A location's runtime is neither Docker nor Singularity.
    XenonUnknownRuntime { runtime: String, location_id: String },
    /// A Kubernetes location has credentials of another kind than a
    /// configuration file.
    K8sIllegalCredentials { location_id: String, cred_type: String },
    /// A Kubernetes configuration file is not Base64.
    K8sBase64Error { location_id: String, err: base64::DecodeError },
    /// A Kubernetes configuration file does not decode to UTF-8.
    K8sUTF8Error { location_id: String, err: std::string::FromUtf8Error },
}

/// The first field a command to create a job lacks, if any.
pub open spec fn missing_field(c: Command) -> Option<Seq<char>> {
    if c.identifier is None {
        Some("identifier"@)
    } else if c.application is None {
        Some("application"@)
    } else if c.location is None {
        Some("location"@)
    } else if c.image is None {
        Some("image"@)
    } else {
        None
    }
}

/// Checks that a command has the fields a job needs: an identifier, an
/// application, a location and an image.
pub fn validate_command(key: &str, command: &Command) -> (r: Result<(), JobError>)
    requires
        missing_field(*command) is Some ==> command_kind_of(command.kind) is Some,
    ensures
        match missing_field(*command) {
            None => r is Ok,
            Some(f) => r matches Err(JobError::IllegalCommandError { key: k, kind, field }) && k@ == key@
                && kind@ == command_name(command_kind_of(command.kind)->0) && field@ == f,
        },
{
    let field = if command.identifier.is_none() {
        "identifier"
    } else if command.application.is_none() {
        "application"
    } else if command.location.is_none() {
        "location"
    } else if command.image.is_none() {
        "image"
    } else {
        return Ok(());
    };
    proof {
        reveal_strlit("identifier");
        reveal_strlit("application");
        reveal_strlit("location");
        reveal_strlit("image");
    }
    let kind = match CommandKind::from_i32(command.kind) {
        Some(k) => k,
        None => vstd::pervasive::unreached(),
    };
    Err(JobError::IllegalCommandError {
        key: String::from_str(key),
        kind: String::from_str(kind.name()),
        field: String::from_str(field),
    })
}

/// The environment of a job: the application, location and job it belongs
/// to and where to call back to, and the proxy and the shared file system
/// where there are.
pub open spec fn job_environment(
    application_id: Seq<char>,
    location_id: Seq<char>,
    job_id: Seq<char>,
    callback_to: Seq<char>,
    proxy_address: Option<String>,
    mount_dfs: Option<String>,
) -> Seq<(Seq<char>, Seq<char>)> {
    let base = seq![
        ("BRANE_APPLICATION_ID"@, application_id),
        ("BRANE_LOCATION_ID"@, location_id),
        ("BRANE_JOB_ID"@, job_id),
        ("BRANE_CALLBACK_TO"@, callback_to),
    ];
    let with_proxy = match proxy_address {
        Some(p) => base.push(("BRANE_PROXY_ADDRESS"@, p@)),
        None => base,
    };
    match mount_dfs {
        Some(m) => with_proxy.push(("BRANE_MOUNT_DFS"@, m@)),
        None => with_proxy,
    }
}

/// The pairs of strings, as sequences of characters.
pub open spec fn pairs_view(v: Seq<(String, String)>) -> Seq<(Seq<char>, Seq<char>)> {
    v.map_values(|p: (String, String)| (p.0@, p.1@))
}

/// Makes the environment of a job, each variable once.
pub fn construct_environment(
    application_id: String,
    location_id: String,
    job_id: String,
    callback_to: String,
    proxy_address: &Option<String>,
    mount_dfs: &Option<String>,
) -> (r: Result<Vec<(String, String)>, JobError>)
    ensures
        r matches Ok(env) && pairs_view(env@) == job_environment(
            application_id@,
            location_id@,
            job_id@,
            callback_to@,
            *proxy_address,
            *mount_dfs,
        ),
{
    let mut env: Vec<(String, String)> = Vec::new();
    env.push((String::from_str("BRANE_APPLICATION_ID"), application_id));
    env.push((String::from_str("BRANE_LOCATION_ID"), location_id));
    env.push((String::from_str("BRANE_JOB_ID"), job_id));
    env.push((String::from_str("BRANE_CALLBACK_TO"), callback_to));
    match proxy_address {
        Some(p) => {
            env.push((String::from_str("BRANE_PROXY_ADDRESS"), p.clone()));
        },
        None => {},
    }
    match mount_dfs {
        Some(m) => {
            env.push((String::from_str("BRANE_MOUNT_DFS"), m.clone()));
        },
        None => {},
    }
    proof {
        assert(pairs_view(env@) =~= job_environment(
            application_id@,
            location_id@,
            job_id@,
            callback_to@,
            *proxy_address,
            *mount_dfs,
        ));
    }
    Ok(env)
}

/// Handles a heartbeat callback: nothing comes of it.
pub fn handle(callback: Callback) -> (r: Result<Vec<(String, Event)>, JobError>)
    ensures
        r matches Ok(events) && events@.len() == 0,
{
    Ok(Vec::new())
}

/// Reads the kind of a callback that arrived under `key`: an unknown kind
/// is ignored (`None`), a number that stands for no kind is an error.
pub fn handle_clb_message(key: String, callback: &Callback) -> (r: Result<Option<CallbackKind>, JobError>)
    ensures
        match callback_kind_of(callback.kind) {
            None => r == Err::<Option<CallbackKind>, JobError>(JobError::IllegalCallbackKind { kind: callback.kind }),
            Some(CallbackKind::Unknown) => r == Ok::<Option<CallbackKind>, JobError>(None),
            Some(k) => r == Ok::<Option<CallbackKind>, JobError>(Some(k)),
        },
{
    match CallbackKind::from_i32(callback.kind) {
        None => Err(JobError::IllegalCallbackKind { kind: callback.kind }),
        Some(CallbackKind::Unknown) => Ok(None),
        Some(k) => Ok(Some(k)),
    }
}

/// How a job is run at its location, with the credentials resolved.
#[derive(Debug)]
pub enum LocationRun {
    Kube { address: String, namespace: String, credentials: LocationCredentials },
    Local { network: String },
    Slurm { address: String, runtime: String, credentials: LocationCredentials },
    Vm { address: String, runtime: String, credentials: LocationCredentials },
}

/// What to do to run a job at a location: its environment and how to run it.
#[derive(Debug)]
pub struct LocationPlan {
    pub environment: Vec<(String, String)>,
    pub run: LocationRun,
}

/// The location's address, callback channel, proxy and shared file system.
pub open spec fn location_parts(l: Location) -> (Seq<char>, Option<String>, Option<String>) {
    match l {
        Location::Kube { callback_to, proxy_address, mount_dfs, .. } => (callback_to@, proxy_address, mount_dfs),
        Location::Local { callback_to, proxy_address, mount_dfs, .. } => (callback_to@, proxy_address, mount_dfs),
        Location::Vm { callback_to, proxy_address, mount_dfs, .. } => (callback_to@, proxy_address, mount_dfs),
        Location::Slurm { callback_to, proxy_address, mount_dfs, .. } => (callback_to@, proxy_address, mount_dfs),
    }
}

/// Decides how to run a job at a location: the job's environment, and the
/// location's way of running it, whose credentials have their secrets
/// resolved.
pub fn plan_location(
    application_id: &str,
    location_id: &str,
    job_id: &str,
    location: Location,
    secrets: &SecretsDocument,
) -> (r: LocationPlan)
    ensures
        ({
            let (callback_to, proxy, dfs) = location_parts(location);
            pairs_view(r.environment@) == job_environment(application_id@, location_id@, job_id@, callback_to, proxy, dfs)
        }),
        match (location, r.run) {
            (Location::Kube { address, namespace, credentials, .. }, LocationRun::Kube { address: a, namespace: n, credentials: c }) => a
                == address && n == namespace && credentials_resolved(credentials, secrets@, c),
            (Location::Local { network, .. }, LocationRun::Local { network: n }) => n == network,
            (Location::Slurm { address, runtime, credentials, .. }, LocationRun::Slurm { address: a, runtime: rt, credentials: c }) => a
                == address && rt == runtime && credentials_resolved(credentials, secrets@, c),
            (Location::Vm { address, runtime, credentials, .. }, LocationRun::Vm { address: a, runtime: rt, credentials: c }) => a
                == address && rt == runtime && credentials_resolved(credentials, secrets@, c),
            _ => false,
        },
{
    let app = String::from_str(application_id);
    let loc = String::from_str(location_id);
    let job = String::from_str(job_id);
    match location {
        Location::Kube { address, callback_to, namespace, credentials, proxy_address, mount_dfs, .. } => {
            let environment = match construct_environment(app, loc, job, callback_to, &proxy_address, &mount_dfs) {
                Ok(e) => e,
                Err(_) => vstd::pervasive::unreached(),
            };
            let credentials = credentials.resolve_secrets(secrets);
            LocationPlan { environment, run: LocationRun::Kube { address, namespace, credentials } }
        },
        Location::Local { callback_to, network, proxy_address, mount_dfs, .. } => {
            let environment = match construct_environment(app, loc, job, callback_to, &proxy_address, &mount_dfs) {
                Ok(e) => e,
                Err(_) => vstd::pervasive::unreached(),
            };
            LocationPlan { environment, run: LocationRun::Local { network } }
        },
        Location::Slurm { address, callback_to, runtime, credentials, proxy_address, mount_dfs, .. } => {
            let environment = match construct_environment(app, loc, job, callback_to, &proxy_address, &mount_dfs) {
                Ok(e) => e,
                Err(_) => vstd::pervasive::unreached(),
            };
            let credentials = credentials.resolve_secrets(secrets);
            LocationPlan { environment, run: LocationRun::Slurm { address, runtime, credentials } }
        },
        Location::Vm { address, callback_to, runtime, credentials, proxy_address, mount_dfs, .. } => {
            let environment = match construct_environment(app, loc, job, callback_to, &proxy_address, &mount_dfs) {
                Ok(e) => e,
                Err(_) => vstd::pervasive::unreached(),
            };
            let credentials = credentials.resolve_secrets(secrets);
            LocationPlan { environment, run: LocationRun::Vm { address, runtime, credentials } }
        },
    }
}

/// The image name without its digest: the part before the first `@`.
pub open spec fn image_without_digest(image: Seq<char>) -> Seq<char> {
    if exists|i: int| 0 <= i < image.len() && image[i] == '@' {
        image.subrange(0, choose|i: int| 0 <= i < image.len() && image[i] == '@' && forall|j: int| 0 <= j < i ==> image[j] != '@')
    } else {
        image
    }
}

/// A name with an `@` has a first one.
proof fn lemma_first_at(image: Seq<char>)
    requires
        exists|i: int| 0 <= i < image.len() && image[i] == '@',
    ensures
        exists|k: int| 0 <= k < image.len() && image[k] == '@' && forall|j: int| 0 <= j < k ==> image[j] != '@',
    decreases image.len(),
{
    if image[0] == '@' {
        assert(forall|j: int| 0 <= j < 0 ==> image[j] != '@');
    } else {
        let rest = image.drop_first();
        let i = choose|i: int| 0 <= i < image.len() && image[i] == '@';
        assert(rest[i - 1] == '@');
        lemma_first_at(rest);
        let k = choose|k: int| 0 <= k < rest.len() && rest[k] == '@' && forall|j: int| 0 <= j < k ==> rest[j] != '@';
        assert forall|j: int| 0 <= j < k + 1 implies image[j] != '@' by {
            if j > 0 {
                assert(image[j] == rest[j - 1]);
            }
        }
        assert(image[k + 1] == rest[k]);
    }
}

/// Cutting the digest off an image name twice cuts no more than once: the
/// name without its digest holds no `@`.
pub proof fn law_strip_digest_idempotent(image: Seq<char>)
    ensures
        forall|i: int| 0 <= i < image_without_digest(image).len() ==> image_without_digest(image)[i] != '@',
        image_without_digest(image_without_digest(image)) == image_without_digest(image),
{
    if exists|i: int| 0 <= i < image.len() && image[i] == '@' {
        lemma_first_at(image);
    }
}

/// Cuts the digest off an image name.
pub fn strip_digest(image: &str) -> (r: String)
    ensures
        r@ == image_without_digest(image@),
{
    let n = image.unicode_len();
    let mut i: usize = 0;
    while i < n
        invariant
            i <= n,
            n == image@.len(),
            forall|j: int| 0 <= j < i ==> image@[j] != '@',
        decreases n - i,
    {
        if image.get_char(i) == '@' {
            let ghost k = choose|k: int| 0 <= k < image@.len() && image@[k] == '@' && forall|j: int| 0 <= j < k ==> image@[j] != '@';
            assert(k == i) by {
                if k < i {
                    assert(image@[k] != '@');
                }
                if k > i {
                    assert(image@[i as int] != '@');
                }
            }
            return String::from_str(image.substring_char(0, i));
        }
        i = i + 1;
    }
    String::from_str(image)
}

/// The key and event that report a job created at a location: the key is
/// the job's identifier with `#0`, for the first event of a job, and the
/// payload is the image name without its digest.
pub fn created_event(job_id: &str, application_id: &str, location_id: &str, image: &str) -> (r: (String, Event))
    ensures
        r.0@ == job_id@ + "#0"@,
        r.1.kind == event_code(EventKind::Created),
        r.1.identifier@ == job_id@,
        r.1.application@ == application_id@,
        r.1.location@ == location_id@,
        r.1.category@ == "job"@,
        r.1.order == 0,
        r.1.payload@ == vstd::utf8::encode_utf8(image_without_digest(image@)),
{
    let mut key = String::from_str(job_id);
    key.append("#0");
    let stripped = strip_digest(image);
    let payload = stripped.as_str().as_bytes_vec();
    let event = Event::new(
        EventKind::Created,
        String::from_str(job_id),
        String::from_str(application_id),
        String::from_str(location_id),
        String::from_str("job"),
        0,
        Some(payload),
        None,
    );
    (key, event)
}

/// The key and event that report a job whose creation failed: the key is
/// the job's identifier with `#0`, for the first event of a job, and the
/// payload is the text of the error.
pub open spec fn create_failed_pair(job_id: Seq<char>, application_id: Seq<char>, location_id: Seq<char>, message: Seq<
    char,
>, p: (String, Event)) -> bool {
    &&& p.0@ == job_id + "#0"@
    &&& p.1.kind == event_code(EventKind::CreateFailed)
    &&& p.1.identifier@ == job_id
    &&& p.1.application@ == application_id
    &&& p.1.location@ == location_id
    &&& p.1.category@ == "job"@
    &&& p.1.order == 0
    &&& p.1.payload@ == vstd::utf8::encode_utf8(message)
}

/// Makes the key and event that report a job whose creation failed.
pub fn create_failed_event(job_id: &str, application_id: &str, location_id: &str, message: &str) -> (r: (
    String,
    Event,
))
    ensures
        create_failed_pair(job_id@, application_id@, location_id@, message@, r),
{
    let mut key = String::from_str(job_id);
    key.append("#0");
    let payload = message.as_bytes_vec();
    let event = Event::new(
        EventKind::CreateFailed,
        String::from_str(job_id),
        String::from_str(application_id),
        String::from_str(location_id),
        String::from_str("job"),
        0,
        Some(payload),
        None,
    );
    (key, event)
}

/// The events a command to create a job gives: those of placing the job at
/// its location, or, where that failed, the one event that reports the
/// failure with the error's text.
pub fn create_events(job_id: &str, application_id: &str, location_id: &str, placed: Result<Vec<(String, Event)>, String>) -> (r: Vec<(String, Event)>)
    ensures
        match placed {
            Ok(events) => r == events,
            Err(message) => r@.len() == 1 && create_failed_pair(job_id@, application_id@, location_id@, message@, r@[0]),
        },
{
    match placed {
        Ok(events) => events,
        Err(message) => {
            let mut v: Vec<(String, Event)> = Vec::new();
            v.push(create_failed_event(job_id, application_id, location_id, message.as_str()));
            v
        },
    }
}

impl JobError {
    /// Lists the names in single quotes, separated by a comma and a space,
    /// for an error's text.
    pub fn serialize_vec(v: &Vec<String>) -> (r: String)
        ensures
            r@ == crate::text::quoted_list(v@.map_values(|s: String| s@)),
    {
        crate::text::quoted_list_string(v)
    }
}

/// The wire number of a command kind reads back as that kind, and a number
/// that reads as a kind is that kind's number.
pub proof fn law_command_code_roundtrip(k: CommandKind, code: i32)
    ensures
        command_kind_of(command_code(k)) == Some(k),
        command_kind_of(code) == Some(k) ==> command_code(k) == code,
{
}

/// No two event kinds share a wire number, so a kind's number reads back
/// as that kind.
pub proof fn law_event_code_injective(a: EventKind, b: EventKind)
    ensures
        event_code(a) == event_code(b) ==> a == b,
{
}

/// Where the job service sends a message it receives.
#[derive(Debug)]
pub enum MessageRoute {
    /// A message without a key is ignored.
    NoKey,
    /// A message without a payload is ignored.
    NoPayload { key: String },
    /// A callback from a job, for `handle_clb_message`.
    Callback { key: String },
    /// A command, for the command handler.
    Command { key: String },
    /// A message of another topic is ignored.
    UnknownTopic { key: String, topic: String },
}

/// Decides where a message goes: by its key, whether it has a payload, and
/// its topic, the callback topic being tried first.
pub fn route_message(key: Option<String>, has_payload: bool, topic: &str, clb_topic: &str, cmd_topic: &str) -> (r: MessageRoute)
    ensures
        match key {
            None => r is NoKey,
            Some(k) => if !has_payload {
                r == MessageRoute::NoPayload { key: k }
            } else if topic@ == clb_topic@ {
                r == MessageRoute::Callback { key: k }
            } else if topic@ == cmd_topic@ {
                r == MessageRoute::Command { key: k }
            } else {
                r matches MessageRoute::UnknownTopic { key: k2, topic: t } && k2 == k && t@ == topic@
            },
        },
{
    match key {
        None => MessageRoute::NoKey,
        Some(k) => {
            if !has_payload {
                MessageRoute::NoPayload { key: k }
            } else if crate::globals::str_eq(topic, clb_topic) {
                MessageRoute::Callback { key: k }
            } else if crate::globals::str_eq(topic, cmd_topic) {
                MessageRoute::Command { key: k }
            } else {
                MessageRoute::UnknownTopic { key: k, topic: String::from_str(topic) }
            }
        },
    }
}

/// The lowercase form of a string by the Unicode tables, as
/// `str::to_lowercase` gives it.
pub uninterp spec fn str_lower(s: Seq<char>) -> Seq<char>;

/// `str::to_lowercase`: the lowercase form of the string, named
/// `str_lower`.
#[verifier::external_body]
pub(crate) fn to_lowercase_string(s: &str) -> (r: String)
    ensures
        r@ == str_lower(s@),
{
    s.to_lowercase()
}

/// The texts of a list of strings.
pub open spec fn texts(v: Seq<String>) -> Seq<Seq<char>> {
    v.map_values(|s: String| s@)
}

/// The arguments that pass the environment to a container: `--env` and
/// `name=value` for each variable, in order.
pub open spec fn env_args(env: Seq<(Seq<char>, Seq<char>)>) -> Seq<Seq<char>>
    decreases env.len(),
{
    if env.len() == 0 {
        Seq::empty()
    } else {
        env_args(env.drop_last()) + seq!["--env"@, env.last().0 + "="@ + env.last().1]
    }
}

/// The arguments that bind the mounts into a container: the flag and
/// `source:destination` for each mount, in order.
pub open spec fn mount_args(flag: Seq<char>, mounts: Seq<Mount>) -> Seq<Seq<char>>
    decreases mounts.len(),
{
    if mounts.len() == 0 {
        Seq::empty()
    } else {
        mount_args(flag, mounts.drop_last()) + seq![flag, mounts.last().source@ + ":"@ + mounts.last().destination@]
    }
}

/// The arguments of `docker` that run a job: removed when done, named by
/// the job, privileged, on the network (named by the job there) or on the
/// host's, with the environment and mounts, the image without its digest in
/// debug mode, and the command.
pub open spec fn docker_args(
    job_id: Seq<char>,
    env: Seq<(Seq<char>, Seq<char>)>,
    network: Option<Seq<char>>,
    mounts: Seq<Mount>,
    image: Seq<char>,
    command: Seq<Seq<char>>,
) -> Seq<Seq<char>> {
    seq!["run"@, "--rm"@, "--name"@, job_id, "--privileged"@, "--network"@] + (match network {
        Some(n) => seq![n, "--hostname"@, job_id],
        None => seq!["host"@],
    }) + env_args(env) + mount_args("-v"@, mounts) + seq![image_without_digest(image), "--debug"@] + command
}

/// Whether the environment mounts the distributed file system.
pub open spec fn mounts_dfs(env: Seq<(Seq<char>, Seq<char>)>) -> bool {
    exists|i: int| 0 <= i < env.len() && env[i].0 == "BRANE_MOUNT_DFS"@
}

/// The arguments of `sudo` that run a job with Singularity: without
/// HTTPS, with only the network capabilities unless the distributed file
/// system is mounted, with the environment and mounts, the Docker image
/// without its digest, and the command.
pub open spec fn singularity_args(
    env: Seq<(Seq<char>, Seq<char>)>,
    mounts: Seq<Mount>,
    image: Seq<char>,
    command: Seq<Seq<char>>,
) -> Seq<Seq<char>> {
    seq!["singularity"@, "run"@, "--nohttps"@] + (if mounts_dfs(env) {
        Seq::empty()
    } else {
        seq!["--drop-caps"@, "ALL"@, "--add-caps"@, "CAP_NET_ADMIN,CAP_NET_BIND_SERVICE,CAP_NET_RAW"@]
    }) + env_args(env) + mount_args("-B"@, mounts) + seq!["docker://"@ + image_without_digest(image)] + command
}

/// A batch job for a scheduler: the program and its arguments, the files
/// for its output, and the queue, if any.
#[derive(Debug, Clone)]
pub struct JobDescription {
    pub queue: Option<String>,
    pub executable: String,
    pub arguments: Vec<String>,
    pub stdout: String,
    pub stderr: String,
}

/// Appends the arguments that pass the environment.
fn push_env_args(args: &mut Vec<String>, env: &Vec<(String, String)>)
    ensures
        texts(final(args)@) == texts(old(args)@) + env_args(pairs_view(env@)),
{
    let ghost start = texts(args@);
    let ghost pv = pairs_view(env@);
    let mut i: usize = 0;
    proof {
        assert(pv.subrange(0, 0) =~= Seq::<(Seq<char>, Seq<char>)>::empty());
        assert(start + Seq::<Seq<char>>::empty() =~= start);
    }
    while i < env.len()
        invariant
            i <= env@.len(),
            pv == pairs_view(env@),
            texts(args@) == start + env_args(pv.subrange(0, i as int)),
        decreases env@.len() - i,
    {
        let ghost before = texts(args@);
        args.push(String::from_str("--env"));
        args.push(crate::objects::join3(env[i].0.as_str(), "=", env[i].1.as_str()));
        proof {
            let sub = pv.subrange(0, i + 1);
            assert(sub.drop_last() =~= pv.subrange(0, i as int));
            assert(sub.last() == (env@[i as int].0@, env@[i as int].1@));
            assert(texts(args@) =~= before + seq!["--env"@, env@[i as int].0@ + "="@ + env@[i as int].1@]);
        }
        i = i + 1;
    }
    proof {
        assert(pv.subrange(0, env@.len() as int) =~= pv);
    }
}

/// Appends the arguments that bind the mounts, with the flag.
fn push_mount_args(args: &mut Vec<String>, flag: &str, mounts: &Vec<Mount>)
    ensures
        texts(final(args)@) == texts(old(args)@) + mount_args(flag@, mounts@),
{
    let ghost start = texts(args@);
    let mut i: usize = 0;
    proof {
        assert(mounts@.subrange(0, 0) =~= Seq::<Mount>::empty());
        assert(start + Seq::<Seq<char>>::empty() =~= start);
    }
    while i < mounts.len()
        invariant
            i <= mounts@.len(),
            texts(args@) == start + mount_args(flag@, mounts@.subrange(0, i as int)),
        decreases mounts@.len() - i,
    {
        let ghost before = texts(args@);
        args.push(String::from_str(flag));
        args.push(crate::objects::join3(mounts[i].source.as_str(), ":", mounts[i].destination.as_str()));
        proof {
            let sub = mounts@.subrange(0, i + 1);
            assert(sub.drop_last() =~= mounts@.subrange(0, i as int));
            assert(sub.last() == mounts@[i as int]);
            assert(texts(args@) =~= before + seq![flag@, mounts@[i as int].source@ + ":"@ + mounts@[i as int].destination@]);
        }
        i = i + 1;
    }
    proof {
        assert(mounts@.subrange(0, mounts@.len() as int) =~= mounts@);
    }
}

/// Appends strings.
fn push_all(args: &mut Vec<String>, items: &Vec<String>)
    ensures
        texts(final(args)@) == texts(old(args)@) + texts(items@),
{
    let ghost start = texts(args@);
    let mut i: usize = 0;
    proof {
        assert(texts(items@.subrange(0, 0)) =~= Seq::<Seq<char>>::empty());
        assert(start + Seq::<Seq<char>>::empty() =~= start);
    }
    while i < items.len()
        invariant
            i <= items@.len(),
            texts(args@) == start + texts(items@.subrange(0, i as int)),
        decreases items@.len() - i,
    {
        let ghost before = texts(args@);
        let c = items[i].clone();
        args.push(c);
        proof {
            assert(texts(args@) =~= before.push(items@[i as int]@));
            assert(texts(items@.subrange(0, i + 1)) =~= texts(items@.subrange(0, i as int)).push(items@[i as int]@));
            assert(texts(args@) =~= start + texts(items@.subrange(0, i + 1)));
        }
        i = i + 1;
    }
    proof {
        assert(items@.subrange(0, items@.len() as int) =~= items@);
    }
}

/// Whether the environment holds the variable of the distributed file
/// system.
fn has_dfs(env: &Vec<(String, String)>) -> (r: bool)
    ensures
        r == mounts_dfs(pairs_view(env@)),
{
    let mut i: usize = 0;
    while i < env.len()
        invariant
            i <= env@.len(),
            forall|j: int| 0 <= j < i ==> env@[j].0@ != "BRANE_MOUNT_DFS"@,
        decreases env@.len() - i,
    {
        if crate::globals::str_eq(env[i].0.as_str(), "BRANE_MOUNT_DFS") {
            proof {
                assert(pairs_view(env@)[i as int].0 == "BRANE_MOUNT_DFS"@);
            }
            return true;
        }
        i = i + 1;
    }
    proof {
        assert forall|j: int| 0 <= j < pairs_view(env@).len() implies pairs_view(env@)[j].0 != "BRANE_MOUNT_DFS"@ by {
            assert(pairs_view(env@)[j].0 == env@[j].0@);
        }
    }
    false
}

/// The output file of a job for one of its streams.
fn output_file(stream: &str, job_id: &str) -> (r: String)
    ensures
        r@ == stream@ + "-"@ + job_id@ + ".txt"@,
{
    let mut s = crate::objects::join3(stream, "-", job_id);
    s.append(".txt");
    s
}

/// Describes a job that runs a command's image with `docker`, on the named
/// network or on the host's, in the queue without limits.
pub fn docker_job_description(command: &Command, job_id: &str, environment: &Vec<(String, String)>, network: Option<String>) -> (r:
    JobDescription)
    requires
        command.image is Some,
    ensures
        r.executable@ == "docker"@,
        texts(r.arguments@) == docker_args(
            job_id@,
            pairs_view(environment@),
            match network {
                Some(n) => Some(n@),
                None => None,
            },
            command.mounts@,
            command.image->0@,
            texts(command.command@),
        ),
        r.queue matches Some(q) && q@ == "unlimited"@,
        r.stdout@ == "stdout"@ + "-"@ + job_id@ + ".txt"@,
        r.stderr@ == "stderr"@ + "-"@ + job_id@ + ".txt"@,
{
    let mut args: Vec<String> = Vec::new();
    args.push(String::from_str("run"));
    args.push(String::from_str("--rm"));
    args.push(String::from_str("--name"));
    args.push(String::from_str(job_id));
    args.push(String::from_str("--privileged"));
    args.push(String::from_str("--network"));
    let ghost head = texts(args@);
    match &network {
        Some(n) => {
            args.push(n.clone());
            args.push(String::from_str("--hostname"));
            args.push(String::from_str(job_id));
        },
        None => {
            args.push(String::from_str("host"));
        },
    }
    let ghost with_net = texts(args@);
    push_env_args(&mut args, environment);
    let ghost with_env = texts(args@);
    push_mount_args(&mut args, "-v", &command.mounts);
    let ghost with_mounts = texts(args@);
    let image = match &command.image {
        Some(i) => strip_digest(i.as_str()),
        None => vstd::pervasive::unreached(),
    };
    args.push(image);
    args.push(String::from_str("--debug"));
    let ghost with_image = texts(args@);
    push_all(&mut args, &command.command);
    proof {
        let net = match network {
            Some(n) => Some(n@),
            None => None::<Seq<char>>,
        };
        assert(head =~= seq!["run"@, "--rm"@, "--name"@, job_id@, "--privileged"@, "--network"@]);
        assert(with_net =~= head + (match net {
            Some(n) => seq![n, "--hostname"@, job_id@],
            None => seq!["host"@],
        }));
        assert(with_image =~= with_mounts + seq![image_without_digest(command.image->0@), "--debug"@]);
        assert(texts(args@) =~= docker_args(
            job_id@,
            pairs_view(environment@),
            net,
            command.mounts@,
            command.image->0@,
            texts(command.command@),
        ));
    }
    JobDescription {
        queue: Some(String::from_str("unlimited")),
        executable: String::from_str("docker"),
        arguments: args,
        stdout: output_file("stdout", job_id),
        stderr: output_file("stderr", job_id),
    }
}

/// Describes a job that runs a command's image with Singularity, through
/// `sudo`, in the default queue.
pub fn singularity_job_description(command: &Command, job_id: &str, environment: &Vec<(String, String)>) -> (r: JobDescription)
    requires
        command.image is Some,
    ensures
        r.executable@ == "sudo"@,
        texts(r.arguments@) == singularity_args(
            pairs_view(environment@),
            command.mounts@,
            command.image->0@,
            texts(command.command@),
        ),
        r.queue is None,
        r.stdout@ == "stdout"@ + "-"@ + job_id@ + ".txt"@,
        r.stderr@ == "stderr"@ + "-"@ + job_id@ + ".txt"@,
{
    let mut args: Vec<String> = Vec::new();
    args.push(String::from_str("singularity"));
    args.push(String::from_str("run"));
    args.push(String::from_str("--nohttps"));
    let ghost head = texts(args@);
    let dfs = has_dfs(environment);
    if !dfs {
        args.push(String::from_str("--drop-caps"));
        args.push(String::from_str("ALL"));
        args.push(String::from_str("--add-caps"));
        args.push(String::from_str("CAP_NET_ADMIN,CAP_NET_BIND_SERVICE,CAP_NET_RAW"));
    }
    let ghost with_caps = texts(args@);
    push_env_args(&mut args, environment);
    push_mount_args(&mut args, "-B", &command.mounts);
    let ghost with_mounts = texts(args@);
    let image = match &command.image {
        Some(i) => strip_digest(i.as_str()),
        None => vstd::pervasive::unreached(),
    };
    let mut docker_image = String::from_str("docker://");
    docker_image.append(image.as_str());
    args.push(docker_image);
    let ghost with_image = texts(args@);
    push_all(&mut args, &command.command);
    proof {
        assert(head =~= seq!["singularity"@, "run"@, "--nohttps"@]);
        assert(with_caps =~= head + (if mounts_dfs(pairs_view(environment@)) {
            Seq::<Seq<char>>::empty()
        } else {
            seq!["--drop-caps"@, "ALL"@, "--add-caps"@, "CAP_NET_ADMIN,CAP_NET_BIND_SERVICE,CAP_NET_RAW"@]
        }));
        assert(with_image =~= with_mounts + seq!["docker://"@ + image_without_digest(command.image->0@)]);
        assert(texts(args@) =~= singularity_args(
            pairs_view(environment@),
            command.mounts@,
            command.image->0@,
            texts(command.command@),
        ));
    }
    JobDescription {
        queue: None,
        executable: String::from_str("sudo"),
        arguments: args,
        stdout: output_file("stdout", job_id),
        stderr: output_file("stderr", job_id),
    }
}

/// Describes a job for a scheduler by the location's runtime, whatever its
/// case: Singularity or Docker on the host's network; any other runtime is
/// refused.
pub fn xenon_job_description(
    command: &Command,
    job_id: &str,
    location_id: &str,
    environment: &Vec<(String, String)>,
    runtime: &str,
) -> (r: Result<JobDescription, JobError>)
    requires
        command.image is Some,
    ensures
        if str_lower(runtime@) == "singularity"@ {
            r matches Ok(d) && d.executable@ == "sudo"@ && texts(d.arguments@) == singularity_args(
                pairs_view(environment@),
                command.mounts@,
                command.image->0@,
                texts(command.command@),
            )
        } else if str_lower(runtime@) == "docker"@ {
            r matches Ok(d) && d.executable@ == "docker"@ && texts(d.arguments@) == docker_args(
                job_id@,
                pairs_view(environment@),
                None,
                command.mounts@,
                command.image->0@,
                texts(command.command@),
            )
        } else {
            r matches Err(JobError::XenonUnknownRuntime { runtime: rt, location_id: l }) && rt@ == str_lower(runtime@)
                && l@ == location_id@
        },
{
    let lower = to_lowercase_string(runtime);
    if crate::globals::str_eq(lower.as_str(), "singularity") {
        Ok(singularity_job_description(command, job_id, environment))
    } else if crate::globals::str_eq(lower.as_str(), "docker") {
        Ok(docker_job_description(command, job_id, environment, None))
    } else {
        Err(JobError::XenonUnknownRuntime { runtime: lower, location_id: String::from_str(location_id) })
    }
}

/// What Kubernetes needs to run a job: the job's name, in lowercase as
/// Kubernetes wants, the image without its digest, the command's
/// arguments, and the environment.
#[derive(Debug, Clone)]
pub struct K8sJobSpec {
    pub name: String,
    pub image: String,
    pub args: Vec<String>,
    pub env: Vec<(String, String)>,
}

/// Describes a job for Kubernetes.
pub fn k8s_job_spec(job_id: &str, command: &Command, environment: Vec<(String, String)>) -> (r: K8sJobSpec)
    requires
        command.image is Some,
    ensures
        r.name@ == str_lower(job_id@),
        r.image@ == image_without_digest(command.image->0@),
        texts(r.args@) == texts(command.command@),
        r.env == environment,
{
    let image = match &command.image {
        Some(i) => strip_digest(i.as_str()),
        None => vstd::pervasive::unreached(),
    };
    let mut args: Vec<String> = Vec::new();
    push_all(&mut args, &command.command);
    proof {
        assert(Seq::<Seq<char>>::empty() + texts(command.command@) =~= texts(command.command@));
    }
    K8sJobSpec { name: to_lowercase_string(job_id), image, args, env: environment }
}

/// A character that Base64 text may hold: a letter or digit, `+`, `/` or
/// `=`.
pub open spec fn base64_symbol(c: char) -> bool {
    char_alphanumeric(c) || c == '+' || c == '/' || c == '='
}

/// The text with everything but Base64 symbols (whitespace, line breaks)
/// removed.
pub open spec fn base64_symbols(s: Seq<char>) -> Seq<char>
    decreases s.len(),
{
    if s.len() == 0 {
        Seq::empty()
    } else {
        base64_symbols(s.drop_last()) + if base64_symbol(s.last()) {
            seq![s.last()]
        } else {
            Seq::empty()
        }
    }
}

/// Removes everything but Base64 symbols from the text.
pub fn keep_base64_symbols(s: &str) -> (r: String)
    ensures
        r@ == base64_symbols(s@),
{
    let n = s.unicode_len();
    let mut out = String::new();
    let mut i: usize = 0;
    while i < n
        invariant
            n == s@.len(),
            i <= n,
            out@ == base64_symbols(s@.subrange(0, i as int)),
        decreases n - i,
    {
        let c = s.get_char(i);
        proof {
            assert(s@.subrange(0, i + 1).drop_last() =~= s@.subrange(0, i as int));
        }
        if is_alphanumeric(c) || c == '+' || c == '/' || c == '=' {
            let piece = s.substring_char(i, i + 1);
            proof {
                assert(piece@ =~= seq![c]);
            }
            out.append(piece);
        } else {
            proof {
                assert(out@ + Seq::<char>::empty() =~= out@);
            }
        }
        i = i + 1;
    }
    proof {
        assert(s@.subrange(0, n as int) =~= s@);
    }
    out
}

/// What a Kubernetes configuration file, as a location's secret holds it,
/// decodes to: `None` where its Base64 symbols are no Base64, else the
/// bytes they stand for.
pub open spec fn k8s_config_bytes(file: Seq<char>) -> Option<Seq<u8>> {
    base64_decoded(base64_symbols(file))
}

/// The configuration text of a Kubernetes location from the result of
/// decoding its file: the decoder's error, or the decoded bytes as UTF-8
/// text.
pub fn k8s_config_from_decoded(location_id: &str, decoded: Result<Vec<u8>, base64::DecodeError>) -> (r: Result<
    String,
    JobError,
>)
    ensures
        match decoded {
            Err(e) => r matches Err(JobError::K8sBase64Error { location_id: l, err }) && l@ == location_id@ && err == e,
            Ok(bytes) => match r {
                Ok(text) => vstd::utf8::valid_utf8(bytes@) && text@ == vstd::utf8::decode_utf8(bytes@),
                Err(JobError::K8sUTF8Error { location_id: l, .. }) => !vstd::utf8::valid_utf8(bytes@) && l@
                    == location_id@,
                Err(_) => false,
            },
        },
{
    match decoded {
        Err(err) => Err(JobError::K8sBase64Error { location_id: String::from_str(location_id), err }),
        Ok(bytes) => match string_from_utf8(bytes) {
            Ok(text) => Ok(text),
            Err(err) => Err(JobError::K8sUTF8Error { location_id: String::from_str(location_id), err }),
        },
    }
}

/// Decodes a Kubernetes configuration file: whitespace and line breaks
/// are dropped, the rest is read as Base64 and the bytes as UTF-8 text.
pub fn k8s_config_text(location_id: &str, file: &str) -> (r: Result<String, JobError>)
    ensures
        match k8s_config_bytes(file@) {
            None => r matches Err(JobError::K8sBase64Error { location_id: l, .. }) && l@ == location_id@,
            Some(bytes) => match r {
                Ok(text) => vstd::utf8::valid_utf8(bytes) && text@ == vstd::utf8::decode_utf8(bytes),
                Err(JobError::K8sUTF8Error { location_id: l, .. }) => !vstd::utf8::valid_utf8(bytes) && l@
                    == location_id@,
                Err(_) => false,
            },
        },
{
    let symbols = keep_base64_symbols(file);
    let decoded = decode_base64(symbols.as_str());
    k8s_config_from_decoded(location_id, decoded)
}

/// The configuration file of a Kubernetes location's credentials: only
/// credentials of the `Config` kind hold one.
pub fn k8s_config_file(location_id: &str, credentials: &LocationCredentials) -> (r: Result<String, JobError>)
    ensures
        match credentials {
            LocationCredentials::Config { file } => r matches Ok(f) && f@ == file@,
            _ => r matches Err(JobError::K8sIllegalCredentials { location_id: l, cred_type }) && l@ == location_id@
                && cred_type@ == credentials.cred_type_name(),
        },
{
    match credentials {
        LocationCredentials::Config { file } => Ok(file.clone()),
        _ => Err(
            JobError::K8sIllegalCredentials {
                location_id: String::from_str(location_id),
                cred_type: String::from_str(credentials.cred_type()),
            },
        ),
    }
}

} // verus!
