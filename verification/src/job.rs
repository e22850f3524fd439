//! Jobs: what the server hands out, and what the client makes of it.

use vstd::prelude::*;

use crate::conf::{ComputeMethod, text_view};
use crate::outside::{decoded, percentDecode};
use crate::server_con::{ServerConnection, effective_cores};
use crate::text::{replaceChar, replaced, strEq};

verus! {

/// How the session stands, as the server counts it.
#[derive(Debug)]
pub struct SessionStats {
    pub pointsEarnedOnSession: i32,
    pub pointsEarnedByUser: i64,
    pub remainingFrames: i32,
    pub waitingProjects: i32,
    pub connectedMachines: i32,
    pub renderableProjects: Option<i32>,
}

/// A part of a scene's archive.
#[derive(Debug, Clone)]
pub struct Chunk {
    pub id: String,
    pub md5: String,
}

/// The parts of a scene's archive, in order.
#[derive(Debug, Clone)]
pub struct Chunks {
    pub chunks: Vec<Chunk>,
}

/// Which renderer a job wants, and how it is to be started.
#[derive(Debug, Clone)]
pub struct RendererInfos {
    pub md5: String,
    pub commandline: String,
    pub updateMethod: String,
}

/// A job as the server describes it.
#[derive(Debug, Clone)]
pub struct RenderTask {
    pub id: String,
    pub useGpu: i32,
    pub chunks: Chunks,
    pub path: String,
    pub frame: String,
    pub synchronousUpload: String,
    pub validationUrl: String,
    pub name: String,
    pub password: String,
    pub rendererInfos: RendererInfos,
    pub script: String,
}

/// A file that the server speaks of, and what is to be done with it.
#[derive(Debug)]
pub struct FileMD5 {
    pub md5: String,
    pub action: Option<String>,
}

/// The server's answer to a request for a job.
#[derive(Debug)]
pub struct JobResponse {
    pub status: i32,
    pub sessionStats: Option<SessionStats>,
    pub renderTask: Option<RenderTask>,
    pub fileMD5s: Option<Vec<FileMD5>>,
}

/// What the status of the server's answer means.
#[derive(Debug, Clone, Copy, PartialEq, Eq, Structural)]
pub enum JobRequestStatus {
    Okay,
    Unknown,
    Nojob,
    ErrorNoRenderingRight,
    ErrorDeadSession,
    ErrorSessionDisabled,
    ErrorSessionDisabledDenoisingNotSupported,
    ErrorInternalError,
    ErrorRendererNotAvailable,
    ServerInMaintenance,
    ServerOverloaded,
}

/// The number that the server sends for a status.
pub open spec fn status_number(status: JobRequestStatus) -> i32 {
    match status {
        JobRequestStatus::Okay => 0,
        JobRequestStatus::Unknown => 999,
        JobRequestStatus::Nojob => 200,
        JobRequestStatus::ErrorNoRenderingRight => 201,
        JobRequestStatus::ErrorDeadSession => 202,
        JobRequestStatus::ErrorSessionDisabled => 203,
        JobRequestStatus::ErrorSessionDisabledDenoisingNotSupported => 208,
        JobRequestStatus::ErrorInternalError => 204,
        JobRequestStatus::ErrorRendererNotAvailable => 205,
        JobRequestStatus::ServerInMaintenance => 206,
        JobRequestStatus::ServerOverloaded => 207,
    }
}

/// The status that a number stands for.
pub open spec fn status_of(v: i32) -> JobRequestStatus {
    if v == 0 {
        JobRequestStatus::Okay
    } else if v == 200 {
        JobRequestStatus::Nojob
    } else if v == 201 {
        JobRequestStatus::ErrorNoRenderingRight
    } else if v == 202 {
        JobRequestStatus::ErrorDeadSession
    } else if v == 203 {
        JobRequestStatus::ErrorSessionDisabled
    } else if v == 204 {
        JobRequestStatus::ErrorInternalError
    } else if v == 205 {
        JobRequestStatus::ErrorRendererNotAvailable
    } else if v == 206 {
        JobRequestStatus::ServerInMaintenance
    } else if v == 207 {
        JobRequestStatus::ServerOverloaded
    } else if v == 208 {
        JobRequestStatus::ErrorSessionDisabledDenoisingNotSupported
    } else {
        JobRequestStatus::Unknown
    }
}

impl From<i32> for JobRequestStatus {
    fn from(v: i32) -> (r: Self) {
        match v {
            0 => JobRequestStatus::Okay,
            200 => JobRequestStatus::Nojob,
            201 => JobRequestStatus::ErrorNoRenderingRight,
            202 => JobRequestStatus::ErrorDeadSession,
            203 => JobRequestStatus::ErrorSessionDisabled,
            204 => JobRequestStatus::ErrorInternalError,
            205 => JobRequestStatus::ErrorRendererNotAvailable,
            206 => JobRequestStatus::ServerInMaintenance,
            207 => JobRequestStatus::ServerOverloaded,
            208 => JobRequestStatus::ErrorSessionDisabledDenoisingNotSupported,
            _ => JobRequestStatus::Unknown,
        }
    }
}

impl vstd::std_specs::convert::FromSpecImpl<i32> for JobRequestStatus {
    open spec fn obeys_from_spec() -> bool {
        true
    }

    open spec fn from_spec(v: i32) -> Self {
        status_of(v)
    }
}

/// The number of a status is read back as that status, and every number that stands for no other
/// status is read as unknown.
pub proof fn law_status_numbers(status: JobRequestStatus, v: i32)
    ensures
        status_of(status_number(status)) == status,
        status_of(v) != JobRequestStatus::Unknown ==> status_number(status_of(v)) == v,
{
}

impl JobResponse {
    /// What the status of this answer means.
    pub fn status(&self) -> (r: JobRequestStatus)
        ensures
            r == status_of(self.status),
    {
        JobRequestStatus::from(self.status)
    }
}

/// A render that is under way.
#[derive(Debug)]
pub struct RenderProcess {}

/// What a job is about.
#[derive(Debug)]
pub struct JobInfo {
    pub id: String,
    pub frameNumber: String,
    pub path: String,
    pub useGPU: bool,
    pub validationUrl: String,
    pub script: String,
    pub archiveChunks: Vec<Chunk>,
    pub name: String,
    pub password: Option<Vec<u8>>,
    pub synchronousUpload: bool,
    pub rendererInfo: RendererInfos,
}

/// What a job may use of this machine.
#[derive(Debug)]
pub struct JobConfig {
    pub computeMethod: ComputeMethod,
    pub cores: u16,
}

/// A job to be done.
#[derive(Debug)]
pub struct Job {
    pub info: JobInfo,
    pub conf: JobConfig,
}

/// Whether a job is what the client makes of the server's description of it, when the decoded
/// address for its result is `url`.
pub open spec fn is_job_with_url(
    job: Job,
    t: RenderTask,
    s: ServerConnection,
    url: Option<Seq<char>>,
) -> bool {
    &&& job.info.id == t.id
    &&& job.info.frameNumber == t.frame
    &&& job.info.path@ == replaced(t.path@, '/', s.platform.spec_separator())
    &&& job.info.useGPU == (t.useGpu == 1)
    &&& job.info.validationUrl@ == url.unwrap_or(t.validationUrl@)
    &&& job.info.script == t.script
    &&& job.info.archiveChunks == t.chunks.chunks
    &&& job.info.name == t.name
    &&& match job.info.password {
        Some(bytes) => t.password@.len() > 0 && bytes@ == vstd::utf8::encode_utf8(t.password@),
        None => t.password@.len() == 0,
    }
    &&& job.info.synchronousUpload == (t.synchronousUpload@ == "1"@)
    &&& job.info.rendererInfo == t.rendererInfos
    &&& job.conf.computeMethod == ComputeMethod::Cpu
    &&& job.conf.cores == effective_cores(s.hwInfo.cores, s.clientConf.maxCpuCores)
}

/// Whether a job is what the client makes of the server's description of it.
pub open spec fn is_job_for(job: Job, t: RenderTask, s: ServerConnection) -> bool {
    is_job_with_url(job, t, s, decoded(t.validationUrl@))
}

impl Job {
    /// The job that the server describes, when the decoded address for its result is
    /// `validationUrl`; where it could not be decoded, the address is taken as it is.
    pub fn withUrl(t: RenderTask, s: &ServerConnection, validationUrl: Option<String>) -> (r: Job)
        ensures
            is_job_with_url(r, t, *s, text_view(validationUrl)),
    {
        let path = replaceChar(t.path.as_str(), '/', s.platform.separator());
        let password = if t.password.as_str().is_empty() {
            None
        } else {
            Some(t.password.as_str().as_bytes_vec())
        };
        let validationUrl = match validationUrl {
            Some(url) => url,
            None => t.validationUrl,
        };
        let info = JobInfo {
            id: t.id,
            frameNumber: t.frame,
            path,
            useGPU: t.useGpu == 1,
            validationUrl,
            script: t.script,
            archiveChunks: t.chunks.chunks,
            name: t.name,
            password,
            synchronousUpload: strEq(t.synchronousUpload.as_str(), "1"),
            rendererInfo: t.rendererInfos,
        };
        Job { info, conf: JobConfig { computeMethod: ComputeMethod::Cpu, cores: s.effectiveCores() } }
    }
}

impl From<(RenderTask, &ServerConnection)> for Job {
    fn from(task: (RenderTask, &ServerConnection)) -> (r: Self)
        ensures
            is_job_for(r, task.0, *task.1),
    {
        let (t, s) = task;
        let url = percentDecode(t.validationUrl.as_str());
        Job::withUrl(t, s, url)
    }
}

impl vstd::std_specs::convert::FromSpecImpl<(RenderTask, &ServerConnection)> for Job {
    open spec fn obeys_from_spec() -> bool {
        false
    }

    open spec fn from_spec(task: (RenderTask, &ServerConnection)) -> Self {
        arbitrary()
    }
}

/// What the client reports of an error.
#[derive(Debug, Clone, Copy, PartialEq, Eq, Structural)]
pub enum ClientErrorType {
    OK,
    UNKNOWN,
}

/// The number that is sent for an error.
pub open spec fn error_number(error: ClientErrorType) -> u32 {
    match error {
        ClientErrorType::OK => 0,
        ClientErrorType::UNKNOWN => 99,
    }
}

impl ClientErrorType {
    /// The number that is sent for this error.
    pub fn number(self) -> (r: u32)
        ensures
            r == error_number(self),
    {
        match self {
            ClientErrorType::OK => 0,
            ClientErrorType::UNKNOWN => 99,
        }
    }
}

// What a job is for

/// The parts of the scene's archive that a job has are those that the server named: all of them, in
/// the same order.
pub proof fn law_chunks_kept(job: Job, t: RenderTask, s: ServerConnection, url: Option<Seq<char>>)
    requires
        is_job_with_url(job, t, s, url),
    ensures
        job.info.archiveChunks@.len() == t.chunks.chunks@.len(),
        forall|i: int|
            0 <= i < t.chunks.chunks@.len() ==> #[trigger] job.info.archiveChunks@[i]
                == t.chunks.chunks@[i],
{
}

/// A job says what the server said: which frame of which scene, with which renderer and script. Its
/// result goes to the address that was decoded, or to the one that was given where that could not be.
pub proof fn law_job_as_told(job: Job, t: RenderTask, s: ServerConnection, url: Option<Seq<char>>)
    requires
        is_job_with_url(job, t, s, url),
    ensures
        job.info.id@ == t.id@,
        job.info.frameNumber@ == t.frame@,
        job.info.script@ == t.script@,
        job.info.name@ == t.name@,
        job.info.rendererInfo.md5@ == t.rendererInfos.md5@,
        job.info.rendererInfo.commandline@ == t.rendererInfos.commandline@,
        job.info.rendererInfo.updateMethod@ == t.rendererInfos.updateMethod@,
        url matches Some(decoded) ==> job.info.validationUrl@ == decoded,
        url is None ==> job.info.validationUrl@ == t.validationUrl@,
        job.info.useGPU <==> t.useGpu == 1,
        job.info.synchronousUpload <==> t.synchronousUpload@ == seq!['1'],
{
    reveal_strlit("1");
    assert("1"@ == seq!['1']);
}

/// The path of a job's scene is the one that the server gave, with what stands between names on this
/// platform in place of each slash, and nothing else changed.
pub proof fn law_job_path(
    job: Job,
    t: RenderTask,
    s: ServerConnection,
    url: Option<Seq<char>>,
    i: int,
)
    requires
        is_job_with_url(job, t, s, url),
        0 <= i < t.path@.len(),
    ensures
        job.info.path@.len() == t.path@.len(),
        t.path@[i] != '/' ==> job.info.path@[i] == t.path@[i],
        t.path@[i] == '/' && s.platform is Windows ==> job.info.path@[i] == '\\',
        !(s.platform is Windows) ==> job.info.path@[i] == t.path@[i],
{
}

/// A password that is not empty is handed on as its bytes, and read as text again it is the same; an
/// empty one is none.
pub proof fn law_job_password(job: Job, t: RenderTask, s: ServerConnection, url: Option<Seq<char>>)
    requires
        is_job_with_url(job, t, s, url),
    ensures
        job.info.password is None <==> t.password@.len() == 0,
        job.info.password matches Some(bytes) ==> bytes@ == vstd::utf8::encode_utf8(t.password@),
{
}

/// A job is done by the processor, on the cores that the client may use, of which there are at most
/// those that the machine has.
pub proof fn law_job_cores(job: Job, t: RenderTask, s: ServerConnection, url: Option<Seq<char>>)
    requires
        is_job_with_url(job, t, s, url),
        s.hwInfo.cores > 0,
    ensures
        job.conf.computeMethod is Cpu,
        1 <= job.conf.cores <= s.hwInfo.cores,
        s.clientConf.maxCpuCores is None ==> job.conf.cores == s.hwInfo.cores,
        s.clientConf.maxCpuCores matches Some(most) && 2 <= most <= s.hwInfo.cores
            ==> job.conf.cores == s.clientConf.maxCpuCores->0,
{
    crate::server_con::law_effective_cores(s.hwInfo.cores, s.clientConf.maxCpuCores, 0);
}

/// What each number that the server sends as a status means; any other means nothing known.
pub proof fn law_status_meanings(v: i32)
    ensures
        status_of(v) is Okay <==> v == 0,
        status_of(v) is Nojob <==> v == 200,
        status_of(v) is ErrorNoRenderingRight <==> v == 201,
        status_of(v) is ErrorDeadSession <==> v == 202,
        status_of(v) is ErrorSessionDisabled <==> v == 203,
        status_of(v) is ErrorInternalError <==> v == 204,
        status_of(v) is ErrorRendererNotAvailable <==> v == 205,
        status_of(v) is ServerInMaintenance <==> v == 206,
        status_of(v) is ServerOverloaded <==> v == 207,
        status_of(v) is ErrorSessionDisabledDenoisingNotSupported <==> v == 208,
        status_of(v) is Unknown <==> v != 0 && !(200 <= v <= 208),
{
}

/// An error is reported by another number than that all is well, which is zero.
pub proof fn law_error_numbers(error: ClientErrorType)
    ensures
        error_number(error) == 0 <==> error is OK,
        error_number(error) == 99 <==> error is UNKNOWN,
{
}

} // verus!
