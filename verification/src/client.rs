//! The client's own course: sessions with the server, and the jobs done in them.

use vstd::prelude::*;

use crate::conf::ClientConfig;
use crate::job::{FileMD5, Job, JobRequestStatus, JobResponse, is_job_for, status_of};
use crate::net::{TransferStats, both, nothing};
use crate::number::{decimal, digits};
use crate::outside::randomBetween;
use crate::paths::{PathPieces, path_views};
use crate::server_con::ServerConnection;
use crate::text::{glue, strEq};

verus! {

/// What the parts of the client share.
#[derive(Debug, Clone, Copy, PartialEq, Eq, Structural)]
pub struct ClientState {
    pub shouldRun: bool,
    pub paused: bool,
    pub downloadStats: TransferStats,
}

/// The state that a session starts with.
pub open spec fn fresh_state() -> ClientState {
    ClientState { shouldRun: true, paused: false, downloadStats: nothing() }
}

impl ClientState {
    /// The state that a session starts with.
    pub fn fresh() -> (r: ClientState)
        ensures
            r == fresh_state(),
    {
        ClientState { shouldRun: true, paused: false, downloadStats: TransferStats::default() }
    }
}

/// The state of a client whose session is ended.
pub open spec fn stopped_state(state: ClientState) -> ClientState {
    ClientState { shouldRun: false, ..state }
}

/// The state of a client that is kept from taking jobs.
pub open spec fn paused_state(state: ClientState) -> ClientState {
    ClientState { paused: true, ..state }
}

/// The state of a client that has downloaded something more.
pub open spec fn with_download(state: ClientState, stat: TransferStats) -> ClientState {
    ClientState { downloadStats: both(state.downloadStats, stat), ..state }
}

/// What may be done to a client's state.
pub trait ClientStateMut {
    /// Ends the session.
    fn stop(&mut self);

    /// Keeps the client from taking jobs.
    fn pause(&mut self);

    /// Counts a download.
    fn reportDownload(&mut self, stat: TransferStats);
}

impl ClientStateMut for ClientState {
    fn stop(&mut self)
        ensures
            *final(self) == stopped_state(*old(self)),
    {
        self.shouldRun = false;
    }

    fn pause(&mut self)
        ensures
            *final(self) == paused_state(*old(self)),
    {
        self.paused = true;
    }

    fn reportDownload(&mut self, stat: TransferStats)
        ensures
            *final(self) == with_download(*old(self), stat),
    {
        self.downloadStats = self.downloadStats + stat;
    }
}

/// What the client calls itself when it speaks to the server.
pub open spec fn user_agent(version: Option<(u64, u64, u64)>) -> Seq<char> {
    match version {
        Some(v) => "Rust"@ + "/"@ + digits(v.0 as nat) + "."@ + digits(v.1 as nat) + "."@ + digits(
            v.2 as nat,
        ),
        None => "Rust"@,
    }
}

/// What the client calls itself when it speaks to the server. `version` is that of the compiler,
/// if it is known.
pub fn userAgent(version: Option<(u64, u64, u64)>) -> (r: String)
    ensures
        r@ == user_agent(version),
{
    let mut agent = "Rust".to_owned();
    if let Some(v) = version {
        agent.append("/");
        agent.append(decimal(v.0).as_str());
        agent.append(".");
        agent.append(decimal(v.1).as_str());
        agent.append(".");
        agent.append(decimal(v.2).as_str());
    }
    agent
}

// What the server's answer comes to

/// What the client makes of the server's answer to a request for a job.
#[derive(Debug)]
pub enum JobResult {
    CreateNewSession,
    NewJob(Box<Job>),
    JustWait { min: u32, max: u32 },
}

impl JobResult {
    /// Waits for so many seconds.
    pub fn JustWaitFixed(secs: u32) -> (r: JobResult)
        ensures
            r == (JobResult::JustWait { min: secs, max: secs }),
    {
        JobResult::JustWait { min: secs, max: secs }
    }
}

/// Whether a file is one that the server wants to be deleted.
pub open spec fn to_delete(file: FileMD5) -> bool {
    file.action is Some && file.action->0@ == "delete"@ && file.md5@.len() > 0
}

/// The files that the server wants to be deleted: each in both of the client's folders.
pub open spec fn deletions(files: Seq<FileMD5>, conf: ClientConfig) -> Seq<Seq<Seq<char>>>
    decreases files.len(),
{
    if files.len() == 0 {
        Seq::empty()
    } else {
        let before = deletions(files.drop_last(), conf);
        if to_delete(files.last()) {
            before.push(seq![conf.binCachePath@, files.last().md5@]).push(
                seq![conf.workPath@, files.last().md5@],
            )
        } else {
            before
        }
    }
}

/// The files that the server wants to be deleted.
pub fn filesToDelete(files: &Vec<FileMD5>, conf: &ClientConfig) -> (r: Vec<PathPieces>)
    ensures
        path_views(r@) == deletions(files@, *conf),
{
    let mut paths: Vec<PathPieces> = Vec::new();
    let mut i: usize = 0;
    assert(path_views(paths@) == deletions(files@.take(0), *conf));
    while i < files.len()
        invariant
            i <= files@.len(),
            path_views(paths@) == deletions(files@.take(i as int), *conf),
        decreases files@.len() - i,
    {
        let file = &files[i];
        let ghost before = path_views(paths@);
        assert(files@.take(i as int + 1).drop_last() == files@.take(i as int));
        assert(files@.take(i as int + 1).last() == *file);
        let delete = match &file.action {
            Some(action) => strEq(action.as_str(), "delete"),
            None => false,
        };
        if delete && !file.md5.as_str().is_empty() {
            let cached = PathPieces::of(conf.binCachePath.as_str()).join(file.md5.as_str());
            let worked = PathPieces::of(conf.workPath.as_str()).join(file.md5.as_str());
            assert(cached@ == seq![conf.binCachePath@, file.md5@]);
            assert(worked@ == seq![conf.workPath@, file.md5@]);
            paths.push(cached);
            paths.push(worked);
            assert(path_views(paths@) == before.push(
                seq![conf.binCachePath@, file.md5@],
            ).push(seq![conf.workPath@, file.md5@]));
        }
        i += 1;
    }
    assert(files@.take(files@.len() as int) == files@);
    paths
}

/// A file is deleted for every entry that asks for it, and none without one.
pub proof fn law_deletions(files: Seq<FileMD5>, conf: ClientConfig, path: Seq<Seq<char>>)
    ensures
        deletions(files, conf).contains(path) <==> exists|i: int|
            0 <= i < files.len() && to_delete(#[trigger] files[i]) && (path == seq![
                conf.binCachePath@,
                files[i].md5@,
            ] || path == seq![conf.workPath@, files[i].md5@]),
    decreases files.len(),
{
    if files.len() > 0 {
        let rest = files.drop_last();
        let before = deletions(rest, conf);
        let all = deletions(files, conf);
        law_deletions(rest, conf, path);
        let n = files.len() - 1;
        if before.contains(path) {
            let k = choose|k: int| 0 <= k < before.len() && before[k] == path;
            assert(all[k] == path);
            let i = choose|i: int|
                0 <= i < rest.len() && to_delete(#[trigger] rest[i]) && (path == seq![
                    conf.binCachePath@,
                    rest[i].md5@,
                ] || path == seq![conf.workPath@, rest[i].md5@]);
            assert(to_delete(files[i]));
        }
        if to_delete(files[n]) {
            assert(all[before.len() as int] == seq![conf.binCachePath@, files[n].md5@]);
            assert(all[before.len() as int + 1] == seq![conf.workPath@, files[n].md5@]);
            assert(all.len() == before.len() + 2);
        }
        if all.contains(path) && !before.contains(path) {
            let k = choose|k: int| 0 <= k < all.len() && all[k] == path;
            if k < before.len() {
                assert(before[k] == path);
            }
            assert(to_delete(files[n]));
        }
        if exists|i: int|
            0 <= i < files.len() && to_delete(#[trigger] files[i]) && (path == seq![
                conf.binCachePath@,
                files[i].md5@,
            ] || path == seq![conf.workPath@, files[i].md5@]) {
            let i = choose|i: int|
                0 <= i < files.len() && to_delete(#[trigger] files[i]) && (path == seq![
                    conf.binCachePath@,
                    files[i].md5@,
                ] || path == seq![conf.workPath@, files[i].md5@]);
            if i < n {
                assert(to_delete(rest[i]));
                assert(before.contains(path));
            }
        }
    }
}

/// What is done with the server's answer.
#[derive(Debug)]
pub struct Preprocessed {
    /// Files to delete.
    pub deletions: Vec<PathPieces>,
    /// A line for the user.
    pub notice: Option<String>,
    pub result: Result<JobResult, String>,
}

/// What a status of the server's answer comes to; nothing where the answer is to be looked at
/// further.
pub enum StatusOutcome {
    Proceed,
    Refuse(Seq<char>),
    NewSession,
    /// Wait, after telling the user.
    Wait(Seq<char>, u32, u32),
}

/// What a status of the server's answer comes to.
pub open spec fn status_outcome(status: JobRequestStatus) -> StatusOutcome {
    match status {
        JobRequestStatus::Okay | JobRequestStatus::Unknown => StatusOutcome::Proceed,
        JobRequestStatus::Nojob => StatusOutcome::Wait(
            "There is no job right now. Sleeping for a bit..."@,
            120,
            120,
        ),
        JobRequestStatus::ErrorNoRenderingRight => StatusOutcome::Refuse(
            "Client has no right to render!"@,
        ),
        JobRequestStatus::ErrorDeadSession => StatusOutcome::NewSession,
        JobRequestStatus::ErrorSessionDisabled => StatusOutcome::Refuse(
            "The session is disabled!"@,
        ),
        JobRequestStatus::ErrorSessionDisabledDenoisingNotSupported => StatusOutcome::Refuse(
            "Deonising is not supported!"@,
        ),
        JobRequestStatus::ErrorInternalError => StatusOutcome::Wait(
            "The server had an error! Sleeping for a bit..."@,
            300,
            300,
        ),
        JobRequestStatus::ErrorRendererNotAvailable => StatusOutcome::Refuse(
            "The session is disabled!"@,
        ),
        JobRequestStatus::ServerInMaintenance => StatusOutcome::Wait(
            "The server is in maintenance! Sleeping for a bit..."@,
            1200,
            1800,
        ),
        JobRequestStatus::ServerOverloaded => StatusOutcome::Wait(
            "The server is overloaded! Sleeping for a bit..."@,
            600,
            1800,
        ),
    }
}

/// Whether a result is what the server's answer comes to, files aside.
pub open spec fn preprocessed(
    job: JobResponse,
    server: ServerConnection,
    notice: Option<Seq<char>>,
    result: Result<JobResult, String>,
) -> bool {
    match status_outcome(status_of(job.status)) {
        StatusOutcome::Proceed => {
            &&& notice is None
            &&& match (job.renderTask, result) {
                (Some(task), Ok(JobResult::NewJob(made))) => is_job_for(*made, task, server),
                (None, Ok(JobResult::JustWait { min, max })) => min == 1 && max == 1,
                _ => false,
            }
        },
        StatusOutcome::Refuse(message) => {
            &&& notice is None
            &&& result is Err
            &&& result->Err_0@ == message
        },
        StatusOutcome::NewSession => {
            &&& notice is None
            &&& result == Ok::<JobResult, String>(JobResult::CreateNewSession)
        },
        StatusOutcome::Wait(message, min, max) => {
            &&& notice == Some(message)
            &&& result == Ok::<JobResult, String>(JobResult::JustWait { min, max })
        },
    }
}

/// The files that an answer of the server wants to be deleted.
pub open spec fn answer_deletions(answer: JobResponse, conf: ClientConfig) -> Seq<Seq<Seq<char>>> {
    match answer.fileMD5s {
        Some(files) => deletions(files@, conf),
        None => Seq::empty(),
    }
}

/// What is done with the server's answer to a request for a job.
pub fn preprocessJob(server: &ServerConnection, job: JobResponse) -> (r: Preprocessed)
    ensures
        path_views(r.deletions@) == answer_deletions(job, server.clientConf),
        preprocessed(job, *server, crate::conf::text_view(r.notice), r.result),
{
    let deletions = match &job.fileMD5s {
        Some(files) => filesToDelete(files, &server.clientConf),
        None => Vec::new(),
    };
    assert(job.fileMD5s is None ==> path_views(deletions@) == Seq::<Seq<Seq<char>>>::empty());
    let mut notice: Option<String> = None;
    let result = match job.status() {
        JobRequestStatus::Okay | JobRequestStatus::Unknown => match job.renderTask {
            Some(task) => Ok(JobResult::NewJob(Box::new(Job::from((task, server))))),
            None => Ok(JobResult::JustWaitFixed(1)),
        },
        JobRequestStatus::Nojob => {
            notice = Some("There is no job right now. Sleeping for a bit...".to_owned());
            Ok(JobResult::JustWaitFixed(2 * 60))
        },
        JobRequestStatus::ErrorNoRenderingRight => Err("Client has no right to render!".to_owned()),
        JobRequestStatus::ErrorDeadSession => Ok(JobResult::CreateNewSession),
        JobRequestStatus::ErrorSessionDisabled => Err("The session is disabled!".to_owned()),
        JobRequestStatus::ErrorSessionDisabledDenoisingNotSupported => Err(
            "Deonising is not supported!".to_owned(),
        ),
        JobRequestStatus::ErrorInternalError => {
            notice = Some("The server had an error! Sleeping for a bit...".to_owned());
            Ok(JobResult::JustWaitFixed(5 * 60))
        },
        JobRequestStatus::ErrorRendererNotAvailable => Err("The session is disabled!".to_owned()),
        JobRequestStatus::ServerInMaintenance => {
            notice = Some("The server is in maintenance! Sleeping for a bit...".to_owned());
            Ok(JobResult::JustWait { min: 20 * 60, max: 30 * 60 })
        },
        JobRequestStatus::ServerOverloaded => {
            notice = Some("The server is overloaded! Sleeping for a bit...".to_owned());
            Ok(JobResult::JustWait { min: 10 * 60, max: 30 * 60 })
        },
    };
    Preprocessed { deletions, notice, result }
}

// One round of the client's loop

/// How long to sleep.
#[derive(Debug, Clone, Copy, PartialEq, Eq, Structural)]
pub enum SleepPlan {
    Seconds(u32),
    /// Some number of minutes, both bounds included.
    MinutesBetween(u32, u32),
}

/// Whether there is a time that a plan admits.
pub open spec fn plan_ok(plan: SleepPlan) -> bool {
    match plan {
        SleepPlan::Seconds(_) => true,
        SleepPlan::MinutesBetween(min, max) => min <= max,
    }
}

/// Whether so many seconds are what a plan admits.
pub open spec fn plan_admits(plan: SleepPlan, secs: int) -> bool {
    match plan {
        SleepPlan::Seconds(s) => secs == s,
        SleepPlan::MinutesBetween(min, max) => min * 60 <= secs <= max * 60 && secs % 60 == 0,
    }
}

/// The seconds in so many minutes.
pub fn secondsIn(minutes: u32) -> (r: u64)
    ensures
        r == minutes * 60,
{
    minutes as u64 * 60
}

/// A number of seconds to sleep that a plan admits.
pub fn sleepSeconds(plan: SleepPlan) -> (r: u64)
    requires
        plan_ok(plan),
    ensures
        plan_admits(plan, r as int),
{
    match plan {
        SleepPlan::Seconds(s) => s as u64,
        SleepPlan::MinutesBetween(min, max) => secondsIn(randomBetween(min, max)),
    }
}

/// What a round of the client's loop comes to.
#[derive(Debug)]
pub enum AppLoopAction {
    Continue,
    CreateNewSession,
    FatalStop(String),
}

/// What is next in a round of the client's loop.
#[derive(Debug)]
pub enum RunStep {
    /// Sleep, and then go on with the next round.
    Sleep(SleepPlan),
    Execute(Box<Job>),
    Finish(AppLoopAction),
}

/// What follows from what the server's answer came to. Equal bounds of a wait are seconds, other
/// bounds are minutes.
pub open spec fn run_step(result: Result<JobResult, String>) -> RunStep {
    match result {
        Err(e) => RunStep::Finish(AppLoopAction::FatalStop(e)),
        Ok(JobResult::CreateNewSession) => RunStep::Finish(AppLoopAction::CreateNewSession),
        Ok(JobResult::NewJob(job)) => RunStep::Execute(job),
        Ok(JobResult::JustWait { min, max }) => if min != max {
            RunStep::Sleep(SleepPlan::MinutesBetween(min, max))
        } else if min > 0 {
            RunStep::Sleep(SleepPlan::Seconds(min))
        } else {
            RunStep::Finish(AppLoopAction::Continue)
        },
    }
}

/// What follows from what the server's answer came to.
pub fn runStep(result: Result<JobResult, String>) -> (r: RunStep)
    ensures
        r == run_step(result),
{
    match result {
        Err(e) => RunStep::Finish(AppLoopAction::FatalStop(e)),
        Ok(JobResult::CreateNewSession) => RunStep::Finish(AppLoopAction::CreateNewSession),
        Ok(JobResult::NewJob(job)) => RunStep::Execute(job),
        Ok(JobResult::JustWait { min, max }) => if min == max {
            if min > 0 {
                RunStep::Sleep(SleepPlan::Seconds(min))
            } else {
                RunStep::Finish(AppLoopAction::Continue)
            }
        } else {
            RunStep::Sleep(SleepPlan::MinutesBetween(min, max))
        },
    }
}

/// A round of the client's loop, up to its sleep or its job.
#[derive(Debug)]
pub struct Round {
    /// Files to delete.
    pub deletions: Vec<PathPieces>,
    /// A line for the user.
    pub notice: Option<String>,
    pub step: RunStep,
}

/// Whether a step and a line for the user are what the server's answer comes to.
pub open spec fn round_of(
    answer: Result<JobResponse, String>,
    server: ServerConnection,
    notice: Option<Seq<char>>,
    step: RunStep,
) -> bool {
    match answer {
        Err(e) => {
            &&& notice == Some("Failed to request job! Reason:\n\t"@ + e@)
            &&& step == RunStep::Sleep(SleepPlan::MinutesBetween(15, 30))
        },
        Ok(job) => exists|result: Result<JobResult, String>| #[trigger]
            preprocessed(job, server, notice, result) && step == run_step(result),
    }
}

/// The files that are deleted in a round of the client's loop.
pub open spec fn round_deletions(
    answer: Result<JobResponse, String>,
    conf: ClientConfig,
) -> Seq<Seq<Seq<char>>> {
    match answer {
        Ok(job) => answer_deletions(job, conf),
        Err(_) => Seq::empty(),
    }
}

/// A round of the client's loop, with the server's answer to a request for a job.
pub fn run(server: &ServerConnection, answer: Result<JobResponse, String>) -> (r: Round)
    ensures
        path_views(r.deletions@) == round_deletions(answer, server.clientConf),
        round_of(answer, *server, crate::conf::text_view(r.notice), r.step),
{
    match answer {
        Err(e) => {
            let deletions: Vec<PathPieces> = Vec::new();
            assert(path_views(deletions@) == Seq::<Seq<Seq<char>>>::empty());
            Round {
                deletions,
                notice: Some(glue("Failed to request job! Reason:\n\t", e.as_str())),
                step: RunStep::Sleep(SleepPlan::MinutesBetween(15, 30)),
            }
        },
        Ok(job) => {
            let done = preprocessJob(server, job);
            assert(preprocessed(job, *server, crate::conf::text_view(done.notice), done.result));
            Round { deletions: done.deletions, notice: done.notice, step: runStep(done.result) }
        },
    }
}

/// What a job that was worked on comes to.
pub open spec fn after_job(result: Result<(), String>) -> AppLoopAction {
    match result {
        Ok(_) => AppLoopAction::Continue,
        Err(e) => AppLoopAction::FatalStop(e),
    }
}

/// What a job that was worked on comes to.
pub fn afterJob(result: Result<(), String>) -> (r: AppLoopAction)
    ensures
        r == after_job(result),
{
    match result {
        Ok(_) => AppLoopAction::Continue,
        Err(e) => AppLoopAction::FatalStop(e),
    }
}

/// Whatever the server answers, a sleep that follows is one that can be kept.
pub proof fn law_sleeps_can_be_kept(
    answer: Result<JobResponse, String>,
    server: ServerConnection,
    notice: Option<Seq<char>>,
    step: RunStep,
)
    requires
        round_of(answer, server, notice, step),
    ensures
        step matches RunStep::Sleep(plan) ==> plan_ok(plan),
{
}

/// A job is worked on only if the server answered with one and did not refuse.
pub proof fn law_jobs_are_given(
    answer: Result<JobResponse, String>,
    server: ServerConnection,
    notice: Option<Seq<char>>,
    step: RunStep,
)
    requires
        round_of(answer, server, notice, step),
        step is Execute,
    ensures
        match answer {
            Ok(job) => job.renderTask is Some && is_job_for(
                *step->Execute_0,
                job.renderTask->0,
                server,
            ) && (status_of(job.status) is Okay || status_of(job.status) is Unknown),
            Err(_) => false,
        },
{
}

// What a round is for

/// Whether a number is one by which the server says that something is amiss.
pub open spec fn is_amiss(status: i32) -> bool {
    200 <= status <= 208
}

/// A job that the server gave, with nothing amiss, is worked on; and it has all the parts of the
/// scene's archive that the server named, in the same order.
pub proof fn law_given_jobs_are_done(
    answer: JobResponse,
    server: ServerConnection,
    notice: Option<Seq<char>>,
    step: RunStep,
)
    requires
        round_of(Ok(answer), server, notice, step),
        !is_amiss(answer.status),
    ensures
        notice is None,
        answer.renderTask matches Some(task) ==> {
            &&& step matches RunStep::Execute(job)
            &&& job.info.id@ == task.id@
            &&& job.info.frameNumber@ == task.frame@
            &&& job.info.archiveChunks@.len() == task.chunks.chunks@.len()
            &&& forall|i: int|
                0 <= i < task.chunks.chunks@.len() ==> #[trigger] job.info.archiveChunks@[i]
                    == task.chunks.chunks@[i]
        },
        answer.renderTask is None ==> step == RunStep::Sleep(SleepPlan::Seconds(1)),
{
    let result = choose|result: Result<JobResult, String>| #[trigger]
        preprocessed(answer, server, notice, result) && step == run_step(result);
    assert(preprocessed(answer, server, notice, result));
}

/// The job of a round has all the parts of the scene's archive that the server named.
pub proof fn law_round_keeps_chunks(
    answer: Result<JobResponse, String>,
    server: ServerConnection,
    notice: Option<Seq<char>>,
    step: RunStep,
)
    requires
        round_of(answer, server, notice, step),
        step is Execute,
    ensures
        answer is Ok,
        answer->Ok_0.renderTask is Some,
        ({
            let given = answer->Ok_0.renderTask->0.chunks.chunks@;
            let kept = step->Execute_0.info.archiveChunks@;
            &&& kept.len() == given.len()
            &&& forall|i: int| 0 <= i < given.len() ==> #[trigger] kept[i] == given[i]
        }),
{
    law_jobs_are_given(answer, server, notice, step);
}

/// Where something is amiss no job is worked on, whether one was given or not. The client stops for
/// good where it may not render or its session is disabled, logs in anew where its session is dead,
/// and sleeps where there is no job or the server cannot serve it: longer, the less it can.
pub proof fn law_amiss(
    answer: JobResponse,
    server: ServerConnection,
    notice: Option<Seq<char>>,
    step: RunStep,
)
    requires
        round_of(Ok(answer), server, notice, step),
        is_amiss(answer.status),
    ensures
        ({
            let v = answer.status;
            let stops = v == 201 || v == 203 || v == 205 || v == 208;
            &&& !(step is Execute)
            &&& stops <==> (step matches RunStep::Finish(action) && action is FatalStop)
            &&& v == 202 <==> (step matches RunStep::Finish(action) && action is CreateNewSession)
            &&& v == 200 <==> step == RunStep::Sleep(SleepPlan::Seconds(120))
            &&& v == 204 <==> step == RunStep::Sleep(SleepPlan::Seconds(300))
            &&& v == 206 <==> step == RunStep::Sleep(SleepPlan::MinutesBetween(1200, 1800))
            &&& v == 207 <==> step == RunStep::Sleep(SleepPlan::MinutesBetween(600, 1800))
            &&& notice is Some <==> step is Sleep
        }),
{
    let result = choose|result: Result<JobResult, String>| #[trigger]
        preprocessed(answer, server, notice, result) && step == run_step(result);
    assert(preprocessed(answer, server, notice, result));
}

/// What the user is told and why the client stops differs between the reasons that are given.
pub proof fn law_amiss_told(
    answer: JobResponse,
    server: ServerConnection,
    notice: Option<Seq<char>>,
    step: RunStep,
)
    requires
        round_of(Ok(answer), server, notice, step),
    ensures
        answer.status == 200 ==> notice == Some(
            "There is no job right now. Sleeping for a bit..."@,
        ),
        answer.status == 204 ==> notice == Some("The server had an error! Sleeping for a bit..."@),
        answer.status == 206 ==> notice == Some(
            "The server is in maintenance! Sleeping for a bit..."@,
        ),
        answer.status == 207 ==> notice == Some("The server is overloaded! Sleeping for a bit..."@),
        answer.status == 201 ==> stops_with(step, "Client has no right to render!"@),
        answer.status == 203 ==> stops_with(step, "The session is disabled!"@),
        answer.status == 205 ==> stops_with(step, "The session is disabled!"@),
        answer.status == 208 ==> stops_with(step, "Deonising is not supported!"@),
{
    let result = choose|result: Result<JobResult, String>| #[trigger]
        preprocessed(answer, server, notice, result) && step == run_step(result);
    assert(preprocessed(answer, server, notice, result));
}

/// Whether the client stops for good, for the given reason.
pub open spec fn stops_with(step: RunStep, message: Seq<char>) -> bool {
    step matches RunStep::Finish(AppLoopAction::FatalStop(m)) && m@ == message
}

/// A request that failed is made again after a quarter of an hour at the earliest, and half an hour
/// at the latest; the user is told why.
pub proof fn law_failed_request(
    failure: String,
    server: ServerConnection,
    notice: Option<Seq<char>>,
    step: RunStep,
    secs: int,
)
    requires
        round_of(Err(failure), server, notice, step),
    ensures
        step matches RunStep::Sleep(plan) && (plan_admits(plan, secs) <==> 900 <= secs <= 1800
            && secs % 60 == 0),
        notice matches Some(told) && exists|head: Seq<char>| told == #[trigger] (head + failure@),
{
    assert(notice->0 == "Failed to request job! Reason:\n\t"@ + failure@);
}

/// A sleep of seconds is as long as it says, and one of minutes is a whole number of them between
/// its bounds, each of which can come up.
pub proof fn law_plan_admits(plan: SleepPlan, secs: int)
    ensures
        plan matches SleepPlan::Seconds(s) ==> (plan_admits(plan, secs) <==> secs == s),
        plan matches SleepPlan::MinutesBetween(min, max) ==> (plan_admits(plan, secs)
            <==> exists|minutes: int| min <= minutes <= max && secs == #[trigger] (minutes * 60)),
{
    if let SleepPlan::MinutesBetween(min, max) = plan {
        if plan_admits(plan, secs) {
            let minutes = secs / 60;
            assert(secs == minutes * 60);
            assert(min <= minutes <= max);
        }
    }
}

/// An entry that asks for deletion says so and names a file.
pub proof fn law_to_delete(file: FileMD5)
    ensures
        to_delete(file) <==> (file.action matches Some(action) && action@ == seq![
            'd',
            'e',
            'l',
            'e',
            't',
            'e',
        ]) && file.md5@.len() > 0,
{
    reveal_strlit("delete");
    assert("delete"@ == seq!['d', 'e', 'l', 'e', 't', 'e']);
}

/// A session starts running, not paused, and with nothing downloaded.
pub proof fn law_fresh_state()
    ensures
        fresh_state().shouldRun,
        !fresh_state().paused,
        fresh_state().downloadStats.bytes == 0,
        fresh_state().downloadStats.time@ == 0,
{
    broadcast use crate::span::lemma_span_of;

}

/// The client goes on after a job exactly if the job went well, and else stops for the reason that
/// the job failed.
pub proof fn law_after_job(result: Result<(), String>)
    ensures
        result is Ok <==> after_job(result) is Continue,
        result matches Err(e) ==> (after_job(result) matches AppLoopAction::FatalStop(m) && m@
            == e@),
{
}

/// A client that is stopped does not run, one that is paused is, and what it downloads adds up, while
/// the sums fit; none of these changes anything else.
pub proof fn law_state_changes(state: ClientState, stat: TransferStats)
    ensures
        !stopped_state(state).shouldRun,
        stopped_state(state).paused == state.paused,
        stopped_state(state).downloadStats == state.downloadStats,
        paused_state(state).paused,
        paused_state(state).shouldRun == state.shouldRun,
        paused_state(state).downloadStats == state.downloadStats,
        with_download(state, stat).shouldRun == state.shouldRun,
        with_download(state, stat).paused == state.paused,
        state.downloadStats.bytes + stat.bytes <= u64::MAX && state.downloadStats.time@
            + stat.time@ <= crate::span::SPAN_MAX ==> with_download(state, stat).downloadStats.bytes
            == state.downloadStats.bytes + stat.bytes && with_download(
            state,
            stat,
        ).downloadStats.time@ == state.downloadStats.time@ + stat.time@,
{
    crate::net::law_both_sums(state.downloadStats, stat);
}

/// The client calls itself by its language; where the version of that is known, its three numbers
/// follow behind a stroke, with dots between.
pub proof fn law_user_agent(major: u64, minor: u64, patch: u64)
    ensures
        user_agent(None) == seq!['R', 'u', 's', 't'],
        user_agent(Some((major, minor, patch))) == seq!['R', 'u', 's', 't', '/'] + digits(
            major as nat,
        ) + seq!['.'] + digits(minor as nat) + seq!['.'] + digits(patch as nat),
{
    reveal_strlit("Rust");
    reveal_strlit("/");
    reveal_strlit(".");
    assert("Rust"@ =~= seq!['R', 'u', 's', 't']);
    assert("Rust"@ + "/"@ =~= seq!['R', 'u', 's', 't', '/']);
    assert("."@ =~= seq!['.']);
}

/// Whatever else the server answers, each file that it wants to be deleted is, in both folders; and
/// where it names no file, or does not answer, none is.
pub proof fn law_round_deletes(answer: JobResponse, failure: String, conf: ClientConfig, i: int)
    ensures
        answer.fileMD5s matches Some(files) && 0 <= i < files@.len() && to_delete(files@[i]) ==> {
            let md5 = answer.fileMD5s->0@[i].md5@;
            &&& round_deletions(Ok(answer), conf).contains(seq![conf.binCachePath@, md5])
            &&& round_deletions(Ok(answer), conf).contains(seq![conf.workPath@, md5])
        },
        answer.fileMD5s is None ==> round_deletions(Ok(answer), conf).len() == 0,
        round_deletions(Err(failure), conf).len() == 0,
{
    if let Some(files) = answer.fileMD5s {
        if 0 <= i < files@.len() && to_delete(files@[i]) {
            let md5 = files@[i].md5@;
            law_deletions(files@, conf, seq![conf.binCachePath@, md5]);
            law_deletions(files@, conf, seq![conf.workPath@, md5]);
        }
    }
}

} // verus!
