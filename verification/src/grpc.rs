use vstd::prelude::*;
use vstd::string::*;
use crate::error::{failure, ErrorKind, RuntimeError};
use crate::ids::{parsed_uuid, simple_hex, JobId};
use crate::limits::ResourceLimits;
use crate::status::JobStatus;
use crate::supervisor::JobInfo;
use crate::tls::{extract_username_from_request, Username, UsernameExtension};

verus! {

/// `tokio::sync::mpsc::UnboundedSender`, the sending half of an unbounded
/// channel. It is held and handed on; nothing is known of what is inside.
#[verifier::external_type_specification]
#[verifier::external_body]
#[verifier::reject_recursive_types(T)]
pub struct ExUnboundedSender<T>(tokio::sync::mpsc::UnboundedSender<T>);

/// `tokio::sync::oneshot::Sender`, the sending half of a channel for one
/// reply. It is held and handed on; nothing is known of what is inside.
#[verifier::external_type_specification]
#[verifier::external_body]
#[verifier::reject_recursive_types(T)]
pub struct ExOneshotSender<T>(tokio::sync::oneshot::Sender<T>);

/// Resource limits as they travel in a request: zero stands for "unset".
#[derive(Clone, Copy, Debug, PartialEq, Eq)]
pub struct JobResourceLimits {
    pub memory_high: u64,
    pub memory_max: u64,
    pub cpu_weight: u32,
    pub cpu_max: u32,
    pub io_weight: u32,
}

/// The messages of the four calls, as the handlers see them.
#[derive(Debug)]
pub struct JobStartRequest {
    pub args: Vec<String>,
    pub limits: Option<JobResourceLimits>,
}

#[derive(Debug)]
pub struct JobLogsRequest {
    pub uuid: String,
}

#[derive(Debug)]
pub struct JobStopRequest {
    pub uuid: String,
}

#[derive(Debug)]
pub struct JobStatusRequest {
    pub uuid: String,
}

#[derive(Debug)]
pub struct JobStartResponse {
    pub uuid: String,
}

#[derive(Debug)]
pub struct JobLogsResponse {
    pub data: Vec<u8>,
}

#[derive(Debug)]
pub struct JobStopResponse {}

/// A status as it travels in a response. A pending job has none.
#[derive(Clone, Copy, Debug, PartialEq, Eq, Structural)]
pub enum WireStatus {
    ExitCode(i32),
    Pid(u32),
    Signal(i32),
}

#[derive(Debug)]
pub struct JobStatusResponse {
    pub uuid: String,
    pub owner: String,
    pub status: Option<WireStatus>,
}

/// A chunk of a job's output, with the pipe it came from.
#[derive(Debug)]
pub enum LogRecord {
    Stdout(Vec<u8>),
    Stderr(Vec<u8>),
}

/// A request to the supervisor, with the channel on which it replies.
pub enum RuntimeCommand {
    Start {
        path: String,
        args: Vec<String>,
        owner: Username,
        limits: ResourceLimits,
        sender: tokio::sync::oneshot::Sender<Result<JobId, RuntimeError>>,
    },
    Stop { job: JobId, owner: Username, sender: tokio::sync::oneshot::Sender<Result<(), RuntimeError>> },
    Status {
        job: JobId,
        owner: Username,
        sender: tokio::sync::oneshot::Sender<Result<JobInfo, RuntimeError>>,
    },
    FetchLogs {
        job: JobId,
        owner: Username,
        sender: tokio::sync::mpsc::UnboundedSender<LogRecord>,
        reply: tokio::sync::oneshot::Sender<Result<(), RuntimeError>>,
    },
}

/// The channel on which commands reach the supervisor.
pub type RuntimeSender = tokio::sync::mpsc::UnboundedSender<RuntimeCommand>;

/// Calls `tokio::sync::mpsc::UnboundedSender::send`, which never waits.
/// The result says whether the command was queued; it is not when the
/// receiving half is closed or dropped, which no argument shows, so nothing
/// is claimed of it.
#[verifier::external_body]
fn channel_send(tx: &RuntimeSender, command: RuntimeCommand) -> (queued: bool) {
    tx.send(command).is_ok()
}

/// A limit as a request carries it means a limit only if it is not zero.
pub open spec fn set64(v: u64) -> Option<u64> {
    if v > 0 {
        Some(v)
    } else {
        None
    }
}

pub open spec fn set32(v: u32) -> Option<u32> {
    if v > 0 {
        Some(v)
    } else {
        None
    }
}

pub open spec fn or_zero64(v: Option<u64>) -> u64 {
    match v {
        Some(x) => x,
        None => 0,
    }
}

pub open spec fn or_zero32(v: Option<u32>) -> u32 {
    match v {
        Some(x) => x,
        None => 0,
    }
}

impl JobResourceLimits {
    /// The limits that the request's fields mean.
    pub open spec fn limits(self) -> ResourceLimits {
        ResourceLimits {
            memory_high: set64(self.memory_high),
            memory_max: set64(self.memory_max),
            cpu_max: set32(self.cpu_max),
            cpu_weight: set32(self.cpu_weight),
            io_weight: set32(self.io_weight),
        }
    }

    /// The fields that carry `limits`, if any of them is present.
    pub open spec fn carrying(limits: ResourceLimits) -> Option<JobResourceLimits> {
        if limits == ResourceLimits::unlimited() {
            None
        } else {
            Some(
                JobResourceLimits {
                    memory_high: or_zero64(limits.memory_high),
                    memory_max: or_zero64(limits.memory_max),
                    cpu_weight: or_zero32(limits.cpu_weight),
                    cpu_max: or_zero32(limits.cpu_max),
                    io_weight: or_zero32(limits.io_weight),
                },
            )
        }
    }

    /// The limits that the request's fields mean: a zero field is absent.
    pub fn to_limits(&self) -> (r: ResourceLimits)
        ensures
            r == self.limits(),
    {
        let mut ret: ResourceLimits = ResourceLimits::default();
        if self.memory_high > 0 {
            ret.memory_high = Some(self.memory_high);
        }
        if self.memory_max > 0 {
            ret.memory_max = Some(self.memory_max);
        }
        if self.cpu_weight > 0 {
            ret.cpu_weight = Some(self.cpu_weight);
        }
        if self.cpu_max > 0 {
            ret.cpu_max = Some(self.cpu_max);
        }
        if self.io_weight > 0 {
            ret.io_weight = Some(self.io_weight);
        }
        ret
    }

    /// The fields that carry `limits` in a request: none at all where no
    /// limit is present, else each absent limit as zero.
    pub fn from_limits(limits: &ResourceLimits) -> (r: Option<JobResourceLimits>)
        ensures
            r == JobResourceLimits::carrying(*limits),
    {
        if limits.memory_high.is_none() && limits.memory_max.is_none()
            && limits.cpu_weight.is_none() && limits.cpu_max.is_none()
            && limits.io_weight.is_none() {
            return None;
        }
        Some(
            JobResourceLimits {
                memory_high: match limits.memory_high {
                    Some(v) => v,
                    None => 0,
                },
                memory_max: match limits.memory_max {
                    Some(v) => v,
                    None => 0,
                },
                cpu_weight: match limits.cpu_weight {
                    Some(v) => v,
                    None => 0,
                },
                cpu_max: match limits.cpu_max {
                    Some(v) => v,
                    None => 0,
                },
                io_weight: match limits.io_weight {
                    Some(v) => v,
                    None => 0,
                },
            },
        )
    }
}

impl From<&JobResourceLimits> for ResourceLimits {
    fn from(limits: &JobResourceLimits) -> (r: ResourceLimits) {
        limits.to_limits()
    }
}

impl vstd::std_specs::convert::FromSpecImpl<&JobResourceLimits> for ResourceLimits {
    open spec fn obeys_from_spec() -> bool {
        true
    }

    open spec fn from_spec(limits: &JobResourceLimits) -> ResourceLimits {
        limits.limits()
    }
}

impl From<ResourceLimits> for Option<JobResourceLimits> {
    fn from(limits: ResourceLimits) -> (r: Option<JobResourceLimits>) {
        JobResourceLimits::from_limits(&limits)
    }
}

impl vstd::std_specs::convert::FromSpecImpl<ResourceLimits> for Option<JobResourceLimits> {
    open spec fn obeys_from_spec() -> bool {
        true
    }

    open spec fn from_spec(limits: ResourceLimits) -> Option<JobResourceLimits> {
        JobResourceLimits::carrying(limits)
    }
}

/// Limits without a zero survive the way through a request unchanged.
pub proof fn lemma_limits_round_trip(limits: ResourceLimits)
    requires
        limits.memory_high != Some(0u64),
        limits.memory_max != Some(0u64),
        limits.cpu_max != Some(0u32),
        limits.cpu_weight != Some(0u32),
        limits.io_weight != Some(0u32),
    ensures
        match JobResourceLimits::carrying(limits) {
            Some(wire) => wire.limits() == limits,
            None => limits == ResourceLimits::unlimited(),
        },
{
}

/// The limits that a start request asks for.
pub open spec fn requested_limits(limits: Option<JobResourceLimits>) -> ResourceLimits {
    match limits {
        Some(l) => l.limits(),
        None => ResourceLimits::unlimited(),
    }
}

/// Splits a command line into the program and its arguments. An empty
/// command line is an invalid argument.
pub fn split_command(args: Vec<String>) -> (r: Result<(String, Vec<String>), RuntimeError>)
    ensures
        match r {
            Ok((path, rest)) => args@.len() > 0 && path == args@[0] && rest@ == args@.subrange(
                1,
                args@.len() as int,
            ),
            Err(e) => args@.len() == 0 && e@ == (
                ErrorKind::InvalidArgument,
                "args must be greater that 0"@,
            ),
        },
{
    if args.len() == 0 {
        return Err(RuntimeError::new(ErrorKind::InvalidArgument, "args must be greater that 0"));
    }
    let mut rest: Vec<String> = args;
    let path: String = rest.remove(0);
    assert(rest@ =~= args@.subrange(1, args@.len() as int));
    Ok((path, rest))
}

/// Reads a job id from a request. A text that denotes no id is an invalid
/// argument, reported with the text.
pub fn parse_job_id(text: &str) -> (r: Result<JobId, RuntimeError>)
    ensures
        match parsed_uuid(text@) {
            Some(value) => r == Ok::<JobId, RuntimeError>(JobId { value }),
            None => r is Err && r->Err_0@ == (
                ErrorKind::InvalidArgument,
                "invalid uuid: "@ + text@,
            ),
        },
{
    match JobId::parse(text) {
        Some(id) => Ok(id),
        None => {
            let message: String = String::from_str("invalid uuid: ").concat(text);
            Err(RuntimeError { kind: ErrorKind::InvalidArgument, message })
        },
    }
}

/// The status as a response carries it.
pub open spec fn wire_status(status: JobStatus) -> Option<WireStatus> {
    match status {
        JobStatus::Finished { exit_code } => Some(WireStatus::ExitCode(exit_code)),
        JobStatus::Running { pid } => Some(WireStatus::Pid(pid)),
        JobStatus::Killed { signal } => Some(WireStatus::Signal(signal)),
        JobStatus::Pending => None,
    }
}

/// The status as a response carries it.
pub fn status_to_wire(status: JobStatus) -> (r: Option<WireStatus>)
    ensures
        r == wire_status(status),
{
    match status {
        JobStatus::Finished { exit_code } => Some(WireStatus::ExitCode(exit_code)),
        JobStatus::Running { pid } => Some(WireStatus::Pid(pid)),
        JobStatus::Killed { signal } => Some(WireStatus::Signal(signal)),
        JobStatus::Pending => None,
    }
}

/// The failure that a lost reply stands for: the supervisor dropped the
/// reply channel.
pub open spec fn lost_reply() -> (ErrorKind, Seq<char>) {
    (ErrorKind::Internal, "connection error: channel closed"@)
}

fn reply_lost() -> (r: RuntimeError)
    ensures
        r@ == lost_reply(),
{
    RuntimeError::new(ErrorKind::Internal, "connection error: channel closed")
}

/// The failure that the supervisor reported, as the caller is told of it:
/// the kind stays, and the message is marked as the runtime's.
pub fn runtime_failure(error: RuntimeError) -> (r: RuntimeError)
    ensures
        r@ == (error.kind, "runtime error: "@ + error.message@),
{
    let message: String = String::from_str("runtime error: ").concat(error.message.as_str());
    RuntimeError { kind: error.kind, message }
}

/// The response to a start, from the supervisor's reply; `None` stands for
/// a reply that never came.
pub fn start_response(reply: Option<Result<JobId, RuntimeError>>) -> (r: Result<
    JobStartResponse,
    RuntimeError,
>)
    ensures
        match reply {
            Some(Ok(id)) => r is Ok && r->Ok_0.uuid@ == simple_hex(id.value),
            Some(Err(e)) => r is Err && r->Err_0@ == (e.kind, "runtime error: "@ + e.message@),
            None => r is Err && r->Err_0@ == lost_reply(),
        },
{
    match reply {
        Some(Ok(id)) => Ok(JobStartResponse { uuid: id.to_simple_string() }),
        Some(Err(e)) => Err(runtime_failure(e)),
        None => Err(reply_lost()),
    }
}

/// Whether the stream of a job's output is opened, from the supervisor's
/// reply: a refused request gets the refusal and no stream.
pub fn logs_opened(reply: Option<Result<(), RuntimeError>>) -> (r: Result<(), RuntimeError>)
    ensures
        match reply {
            Some(Ok(_)) => r is Ok,
            Some(Err(e)) => r is Err && r->Err_0@ == (e.kind, "runtime error: "@ + e.message@),
            None => r is Err && r->Err_0@ == lost_reply(),
        },
{
    match reply {
        Some(Ok(_)) => Ok(()),
        Some(Err(e)) => Err(runtime_failure(e)),
        None => Err(reply_lost()),
    }
}

/// The response to a stop, from the supervisor's reply.
pub fn stop_response(reply: Option<Result<(), RuntimeError>>) -> (r: Result<
    JobStopResponse,
    RuntimeError,
>)
    ensures
        match reply {
            Some(Ok(_)) => r is Ok,
            Some(Err(e)) => r is Err && r->Err_0@ == (e.kind, "runtime error: "@ + e.message@),
            None => r is Err && r->Err_0@ == lost_reply(),
        },
{
    match reply {
        Some(Ok(_)) => Ok(JobStopResponse {  }),
        Some(Err(e)) => Err(runtime_failure(e)),
        None => Err(reply_lost()),
    }
}

/// The response to a status request, from the supervisor's reply.
pub fn status_response(reply: Option<Result<JobInfo, RuntimeError>>) -> (r: Result<
    JobStatusResponse,
    RuntimeError,
>)
    ensures
        match reply {
            Some(Ok(info)) => {
                &&& r is Ok
                &&& r->Ok_0.uuid@ == simple_hex(info.job.value)
                &&& r->Ok_0.owner == info.owner
                &&& r->Ok_0.status == wire_status(info.status)
            },
            Some(Err(e)) => r is Err && r->Err_0@ == (e.kind, "runtime error: "@ + e.message@),
            None => r is Err && r->Err_0@ == lost_reply(),
        },
{
    match reply {
        Some(Ok(info)) => Ok(
            JobStatusResponse {
                status: status_to_wire(info.status),
                uuid: info.job.to_simple_string(),
                owner: info.owner,
            },
        ),
        Some(Err(e)) => Err(runtime_failure(e)),
        None => Err(reply_lost()),
    }
}

/// One message of the log stream: the record's bytes, whichever pipe they
/// came from.
pub fn logs_response(record: LogRecord) -> (r: JobLogsResponse)
    ensures
        r.data == match record {
            LogRecord::Stdout(data) => data,
            LogRecord::Stderr(data) => data,
        },
{
    match record {
        LogRecord::Stdout(data) => JobLogsResponse { data },
        LogRecord::Stderr(data) => JobLogsResponse { data },
    }
}

/// The request handlers' side of the command channel.
pub struct MyJobRuntime {
    cmd_tx: RuntimeSender,
}

/// Why a start request is turned away before it reaches the supervisor, if
/// it is: a request without an owner, then an empty command line.
pub open spec fn start_refusal(owner: Option<&UsernameExtension>, args: Seq<String>) -> Option<
    (ErrorKind, Seq<char>),
> {
    if owner is None {
        Some((ErrorKind::Internal, "unable to get username extension"@))
    } else if args.len() == 0 {
        Some((ErrorKind::InvalidArgument, "args must be greater that 0"@))
    } else {
        None
    }
}

/// Why a request that names a job is turned away before it reaches the
/// supervisor, if it is: a request without an owner, or a text that denotes
/// no id, whichever is looked at first. The text is named in the message
/// where `quoted` says so.
pub open spec fn job_refusal(
    owner: Option<&UsernameExtension>,
    uuid: Seq<char>,
    owner_first: bool,
    quoted: bool,
) -> Option<(ErrorKind, Seq<char>)> {
    let no_owner = Some((ErrorKind::Internal, "unable to get username extension"@));
    let no_id = Some(
        (
            ErrorKind::InvalidArgument,
            if quoted {
                "invalid uuid: "@ + uuid
            } else {
                "invalid uuid"@
            },
        ),
    );
    if owner_first {
        if owner is None {
            no_owner
        } else if parsed_uuid(uuid) is None {
            no_id
        } else {
            None
        }
    } else {
        if parsed_uuid(uuid) is None {
            no_id
        } else if owner is None {
            no_owner
        } else {
            None
        }
    }
}

/// The outcome of handing a command to the channel.
pub fn queued_or_unavailable(queued: bool) -> (r: Result<(), RuntimeError>)
    ensures
        queued ==> r is Ok,
        !queued ==> r is Err && r->Err_0@ == failure(ErrorKind::Unavailable),
{
    if queued {
        Ok(())
    } else {
        Err(RuntimeError::of_kind(ErrorKind::Unavailable))
    }
}

impl MyJobRuntime {
    /// The handlers' side of the channel `cmd_tx`.
    pub fn new(cmd_tx: RuntimeSender) -> (r: MyJobRuntime)
        ensures
            r.sender() == cmd_tx,
    {
        Self { cmd_tx }
    }

    /// The channel that the handlers send on.
    pub closed spec fn sender(&self) -> RuntimeSender {
        self.cmd_tx
    }

    /// The start command for a request: the first argument is the program,
    /// the others are its arguments, and a request without limits asks for
    /// none.
    pub fn start_command(
        extension: Option<&UsernameExtension>,
        request: JobStartRequest,
        sender: tokio::sync::oneshot::Sender<Result<JobId, RuntimeError>>,
    ) -> (r: Result<RuntimeCommand, RuntimeError>)
        ensures
            match start_refusal(extension, request.args@) {
                Some(why) => r is Err && r->Err_0@ == why,
                None => {
                    &&& r is Ok
                    &&& r->Ok_0 matches RuntimeCommand::Start {
                        path,
                        args,
                        owner,
                        limits,
                        sender: s,
                    }
                    &&& path == request.args@[0]
                    &&& args@ == request.args@.subrange(1, request.args@.len() as int)
                    &&& owner@ == extension->Some_0.username@
                    &&& limits == requested_limits(request.limits)
                    &&& s == sender
                },
            },
    {
        let owner: Username = match extract_username_from_request(extension) {
            Ok(owner) => owner,
            Err(e) => {
                return Err(e);
            },
        };
        let limits: ResourceLimits = match &request.limits {
            Some(limits) => limits.to_limits(),
            None => ResourceLimits::default(),
        };
        match split_command(request.args) {
            Ok((path, args)) => Ok(RuntimeCommand::Start { path, args, owner, limits, sender }),
            Err(e) => Err(e),
        }
    }

    /// Hands a start request to the supervisor. A request that is turned
    /// away is not sent; one that is not can only fail because the channel
    /// is closed.
    pub fn start_job(
        &self,
        extension: Option<&UsernameExtension>,
        request: JobStartRequest,
        sender: tokio::sync::oneshot::Sender<Result<JobId, RuntimeError>>,
    ) -> (r: Result<(), RuntimeError>)
        ensures
            match start_refusal(extension, request.args@) {
                Some(why) => r is Err && r->Err_0@ == why,
                None => r is Err ==> r->Err_0@ == failure(ErrorKind::Unavailable),
            },
    {
        match MyJobRuntime::start_command(extension, request, sender) {
            Ok(command) => queued_or_unavailable(channel_send(&self.cmd_tx, command)),
            Err(e) => Err(e),
        }
    }

    /// The command that asks for a job's output: the owner is read before
    /// the id. The output will come on `sender`; on `reply` the supervisor
    /// says first whether the stream is opened.
    pub fn logs_command(
        extension: Option<&UsernameExtension>,
        uuid: &str,
        sender: tokio::sync::mpsc::UnboundedSender<LogRecord>,
        reply: tokio::sync::oneshot::Sender<Result<(), RuntimeError>>,
    ) -> (r: Result<RuntimeCommand, RuntimeError>)
        ensures
            match job_refusal(extension, uuid@, true, true) {
                Some(why) => r is Err && r->Err_0@ == why,
                None => {
                    &&& r is Ok
                    &&& r->Ok_0 matches RuntimeCommand::FetchLogs {
                        job,
                        owner,
                        sender: s,
                        reply: t,
                    }
                    &&& Some(job.value) == parsed_uuid(uuid@)
                    &&& owner@ == extension->Some_0.username@
                    &&& s == sender
                    &&& t == reply
                },
            },
    {
        let owner: Username = match extract_username_from_request(extension) {
            Ok(owner) => owner,
            Err(e) => {
                return Err(e);
            },
        };
        match parse_job_id(uuid) {
            Ok(job) => Ok(RuntimeCommand::FetchLogs { job, sender, owner, reply }),
            Err(e) => Err(e),
        }
    }

    /// The command that stops a job: the id is read before the owner.
    pub fn stop_command(
        extension: Option<&UsernameExtension>,
        uuid: &str,
        sender: tokio::sync::oneshot::Sender<Result<(), RuntimeError>>,
    ) -> (r: Result<RuntimeCommand, RuntimeError>)
        ensures
            match job_refusal(extension, uuid@, false, true) {
                Some(why) => r is Err && r->Err_0@ == why,
                None => {
                    &&& r is Ok
                    &&& r->Ok_0 matches RuntimeCommand::Stop { job, owner, sender: s }
                    &&& Some(job.value) == parsed_uuid(uuid@)
                    &&& owner@ == extension->Some_0.username@
                    &&& s == sender
                },
            },
    {
        let job: JobId = match parse_job_id(uuid) {
            Ok(job) => job,
            Err(e) => {
                return Err(e);
            },
        };
        match extract_username_from_request(extension) {
            Ok(owner) => Ok(RuntimeCommand::Stop { job, owner, sender }),
            Err(e) => Err(e),
        }
    }

    /// The command that asks for a job's status: the owner is read before
    /// the id, and a text that denotes no id is not repeated in the message.
    pub fn status_command(
        extension: Option<&UsernameExtension>,
        uuid: &str,
        sender: tokio::sync::oneshot::Sender<Result<JobInfo, RuntimeError>>,
    ) -> (r: Result<RuntimeCommand, RuntimeError>)
        ensures
            match job_refusal(extension, uuid@, true, false) {
                Some(why) => r is Err && r->Err_0@ == why,
                None => {
                    &&& r is Ok
                    &&& r->Ok_0 matches RuntimeCommand::Status { job, owner, sender: s }
                    &&& Some(job.value) == parsed_uuid(uuid@)
                    &&& owner@ == extension->Some_0.username@
                    &&& s == sender
                },
            },
    {
        let owner: Username = match extract_username_from_request(extension) {
            Ok(owner) => owner,
            Err(e) => {
                return Err(e);
            },
        };
        match JobId::parse(uuid) {
            Some(job) => Ok(RuntimeCommand::Status { job, sender, owner }),
            None => Err(RuntimeError::new(ErrorKind::InvalidArgument, "invalid uuid")),
        }
    }

    /// Hands a request for a job's output to the supervisor. A request that
    /// is turned away is not sent; one that is not can only fail because
    /// the channel is closed. Whether the stream is opened is the
    /// supervisor's reply, which `logs_opened` reads.
    pub fn fetch_job_logs(
        &self,
        extension: Option<&UsernameExtension>,
        uuid: &str,
        sender: tokio::sync::mpsc::UnboundedSender<LogRecord>,
        reply: tokio::sync::oneshot::Sender<Result<(), RuntimeError>>,
    ) -> (r: Result<(), RuntimeError>)
        ensures
            match job_refusal(extension, uuid@, true, true) {
                Some(why) => r is Err && r->Err_0@ == why,
                None => r is Err ==> r->Err_0@ == failure(ErrorKind::Unavailable),
            },
    {
        match MyJobRuntime::logs_command(extension, uuid, sender, reply) {
            Ok(command) => queued_or_unavailable(channel_send(&self.cmd_tx, command)),
            Err(e) => Err(e),
        }
    }

    /// Hands a stop request to the supervisor, under the same conditions.
    pub fn stop_job(
        &self,
        extension: Option<&UsernameExtension>,
        uuid: &str,
        sender: tokio::sync::oneshot::Sender<Result<(), RuntimeError>>,
    ) -> (r: Result<(), RuntimeError>)
        ensures
            match job_refusal(extension, uuid@, false, true) {
                Some(why) => r is Err && r->Err_0@ == why,
                None => r is Err ==> r->Err_0@ == failure(ErrorKind::Unavailable),
            },
    {
        match MyJobRuntime::stop_command(extension, uuid, sender) {
            Ok(command) => queued_or_unavailable(channel_send(&self.cmd_tx, command)),
            Err(e) => Err(e),
        }
    }

    /// Hands a status request to the supervisor, under the same conditions.
    pub fn fetch_job_status(
        &self,
        extension: Option<&UsernameExtension>,
        uuid: &str,
        sender: tokio::sync::oneshot::Sender<Result<JobInfo, RuntimeError>>,
    ) -> (r: Result<(), RuntimeError>)
        ensures
            match job_refusal(extension, uuid@, true, false) {
                Some(why) => r is Err && r->Err_0@ == why,
                None => r is Err ==> r->Err_0@ == failure(ErrorKind::Unavailable),
            },
    {
        match MyJobRuntime::status_command(extension, uuid, sender) {
            Ok(command) => queued_or_unavailable(channel_send(&self.cmd_tx, command)),
            Err(e) => Err(e),
        }
    }
}

} // verus!
