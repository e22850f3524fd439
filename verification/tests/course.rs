//! The client's course: rounds, sessions, jobs and uploads.

use sheepit_client::client::{
    AppLoopAction, ClientState, ClientStateMut, JobResult, RunStep, SleepPlan, afterJob,
    filesToDelete, preprocessJob, run, runStep, secondsIn, sleepSeconds, userAgent,
};
use sheepit_client::conf::{ClientConfig, ComputeMethod};
use sheepit_client::execute::{
    JobEvent, JobStage, archiveSize, execute_job, prepareWorkingDirectory, rendererUnpacked,
    sceneUnpacked, unpackRenderer,
};
use sheepit_client::hw_info::HwInfo;
use sheepit_client::job::{
    Chunk, Chunks, FileMD5, Job, JobConfig, JobInfo, JobResponse, RenderTask, RendererInfos,
};
use sheepit_client::net::{RequestEndPoint, TransferStats};
use sheepit_client::paths::PathPieces;
use sheepit_client::render::RenderResult;
use sheepit_client::server_con::ServerConnection;
use sheepit_client::server_conf::ServerConfig;
use sheepit_client::session::{
    AfterPoke, CleanOutcome, FrameUploadMessage, KeepAliveStep, Session, SessionEvent, Stage,
    UploaderStep, afterPoke, cleanupNotice, keepAlive, uploaderStep,
};
use sheepit_client::span::TimeSpan;
use sheepit_client::upload::{
    UploadRetry, UploadStep, uploadRequest, uploadTo, validationOutcome,
};
use sheepit_client::utils::Platform;

fn client_config() -> ClientConfig {
    ClientConfig {
        login: "".to_string(),
        password: "".to_string(),
        hostname: "https://h".to_string(),
        workPath: "/w".to_string(),
        binCachePath: "/c".to_string(),
        headless: false,
        computeMethod: ComputeMethod::Cpu,
        maxCpuCores: None,
        maxMemory: None,
        maxRenderTime: None,
    }
}

fn the_server() -> ServerConnection {
    let endpoint = || RequestEndPoint { path: "".to_string(), maxPeriod: 0 };
    ServerConnection {
        serverConf: ServerConfig {
            publicKey: None,
            speedTestUrls: vec![],
            requestJob: endpoint(),
            downloadBinary: endpoint(),
            downloadChunk: endpoint(),
            error: endpoint(),
            keepMeAlive: endpoint(),
            logout: endpoint(),
            speedTestAnswer: endpoint(),
        },
        clientConf: client_config(),
        hwInfo: HwInfo {
            hwId: "".to_string(),
            vendor: "".to_string(),
            cpuName: "".to_string(),
            familyId: 0,
            modelId: 0,
            steppingId: 0,
            frequency: None,
            cores: 4,
            osName: "".to_string(),
            hostName: "".to_string(),
            totalSystemMemory: 0,
        },
        platform: Platform::Linux,
    }
}

fn render_task() -> RenderTask {
    RenderTask {
        id: "17".to_string(),
        useGpu: 0,
        chunks: Chunks { chunks: vec![] },
        path: "a.blend".to_string(),
        frame: "1".to_string(),
        synchronousUpload: "0".to_string(),
        validationUrl: "https://v".to_string(),
        name: "n".to_string(),
        password: "".to_string(),
        rendererInfos: RendererInfos {
            md5: "abc".to_string(),
            commandline: "".to_string(),
            updateMethod: "".to_string(),
        },
        script: "".to_string(),
    }
}

fn the_job(synchronousUpload: bool) -> Job {
    Job {
        info: JobInfo {
            id: "17".to_string(),
            frameNumber: "1".to_string(),
            path: "a.blend".to_string(),
            useGPU: false,
            validationUrl: "https://v".to_string(),
            script: "".to_string(),
            archiveChunks: vec![
                Chunk { id: "c1".to_string(), md5: "m1".to_string() },
                Chunk { id: "c2".to_string(), md5: "m2".to_string() },
            ],
            name: "n".to_string(),
            password: None,
            synchronousUpload,
            rendererInfo: RendererInfos {
                md5: "abc".to_string(),
                commandline: "".to_string(),
                updateMethod: "".to_string(),
            },
        },
        conf: JobConfig { computeMethod: ComputeMethod::Cpu, cores: 4 },
    }
}

fn response(status: i32) -> JobResponse {
    JobResponse { status, sessionStats: None, renderTask: Some(render_task()), fileMD5s: None }
}

fn frame(url: &str, output: &str) -> RenderResult {
    RenderResult {
        validationUrl: url.to_string(),
        output: PathPieces::of("/w").join(output),
        outputPreview: None,
        memoryUsed: 2048,
        renderTime: TimeSpan::fromNanos(61_900_000_000).unwrap(),
        speedSamplesRendered: None,
    }
}

fn file(md5: &str, action: Option<&str>) -> FileMD5 {
    FileMD5 { md5: md5.to_string(), action: action.map(|a| a.to_string()) }
}

#[test]
fn the_clients_state() {
    let mut state = ClientState::fresh();
    assert!(state.shouldRun && !state.paused);
    assert_eq!(state.downloadStats, TransferStats::default());
    state.pause();
    assert!(state.paused && state.shouldRun);
    state.reportDownload(TransferStats { bytes: 5, time: TimeSpan::fromSecs(1) });
    state.reportDownload(TransferStats { bytes: 6, time: TimeSpan::fromSecs(2) });
    assert_eq!(state.downloadStats, TransferStats { bytes: 11, time: TimeSpan::fromSecs(3) });
    state.stop();
    assert!(!state.shouldRun);
    assert_eq!(userAgent(Some((1, 76, 0))), "Rust/1.76.0");
    assert_eq!(userAgent(None), "Rust");
}

#[test]
fn files_that_the_server_wants_deleted() {
    let files = vec![
        file("a", Some("delete")),
        file("b", Some("keep")),
        file("c", None),
        file("", Some("delete")),
        file("d", Some("delete")),
    ];
    let paths: Vec<Vec<String>> =
        filesToDelete(&files, &client_config()).into_iter().map(|p| p.pieces).collect();
    assert_eq!(
        paths,
        vec![vec!["/c", "a"], vec!["/w", "a"], vec!["/c", "d"], vec!["/w", "d"]]
    );
}

#[test]
fn answers_and_what_they_come_to() {
    let waits = [
        (200, "There is no job right now. Sleeping for a bit...", 120, 120),
        (204, "The server had an error! Sleeping for a bit...", 300, 300),
        (206, "The server is in maintenance! Sleeping for a bit...", 1200, 1800),
        (207, "The server is overloaded! Sleeping for a bit...", 600, 1800),
    ];
    for (status, notice, low, high) in waits {
        let done = preprocessJob(&the_server(), response(status));
        assert_eq!(done.notice.as_deref(), Some(notice));
        assert!(matches!(
            done.result,
            Ok(JobResult::JustWait { min, max }) if min == low && max == high
        ));
    }
    let refusals = [
        (201, "Client has no right to render!"),
        (203, "The session is disabled!"),
        (205, "The session is disabled!"),
        (208, "Deonising is not supported!"),
    ];
    for (status, message) in refusals {
        let done = preprocessJob(&the_server(), response(status));
        assert!(done.notice.is_none());
        assert_eq!(done.result.unwrap_err(), message);
    }
    let dead = preprocessJob(&the_server(), response(202));
    assert!(matches!(dead.result, Ok(JobResult::CreateNewSession)));
    for status in [0, 999, 5] {
        let done = preprocessJob(&the_server(), response(status));
        assert!(matches!(done.result, Ok(JobResult::NewJob(job)) if job.info.id == "17"));
    }
    let empty = JobResponse { renderTask: None, ..response(0) };
    assert!(matches!(
        preprocessJob(&the_server(), empty).result,
        Ok(JobResult::JustWait { min: 1, max: 1 })
    ));
}

#[test]
fn files_are_deleted_whatever_the_status() {
    let refused = JobResponse { fileMD5s: Some(vec![file("a", Some("delete"))]), ..response(201) };
    let done = preprocessJob(&the_server(), refused);
    assert_eq!(done.deletions.len(), 2);
    assert!(done.result.is_err());
}

#[test]
fn rounds_of_the_loop() {
    let round = run(&the_server(), Err("no net".to_string()));
    assert_eq!(round.notice.as_deref(), Some("Failed to request job! Reason:\n\tno net"));
    assert!(round.deletions.is_empty());
    assert!(matches!(round.step, RunStep::Sleep(SleepPlan::MinutesBetween(15, 30))));
    assert!(matches!(run(&the_server(), Ok(response(0))).step, RunStep::Execute(job) if job.info.id == "17"));
    assert!(matches!(
        run(&the_server(), Ok(response(202))).step,
        RunStep::Finish(AppLoopAction::CreateNewSession)
    ));
    assert!(matches!(
        run(&the_server(), Ok(response(203))).step,
        RunStep::Finish(AppLoopAction::FatalStop(m)) if m == "The session is disabled!"
    ));
    assert!(matches!(
        run(&the_server(), Ok(response(200))).step,
        RunStep::Sleep(SleepPlan::Seconds(120))
    ));
    assert!(matches!(
        run(&the_server(), Ok(response(206))).step,
        RunStep::Sleep(SleepPlan::MinutesBetween(1200, 1800))
    ));
    assert!(matches!(
        runStep(Ok(JobResult::JustWaitFixed(0))),
        RunStep::Finish(AppLoopAction::Continue)
    ));
    assert!(matches!(afterJob(Ok(())), AppLoopAction::Continue));
    assert!(matches!(afterJob(Err("e".to_string())), AppLoopAction::FatalStop(m) if m == "e"));
}

#[test]
fn sleeps_keep_to_their_plan() {
    assert_eq!(sleepSeconds(SleepPlan::Seconds(7)), 7);
    assert_eq!(sleepSeconds(SleepPlan::MinutesBetween(3, 3)), 180);
    assert_eq!(secondsIn(u32::MAX), 257698037700);
    let mut seen = Vec::new();
    for _ in 0..400 {
        let secs = sleepSeconds(SleepPlan::MinutesBetween(15, 30));
        assert!(secs % 60 == 0 && (900..=1800).contains(&secs));
        if !seen.contains(&secs) {
            seen.push(secs);
        }
    }
    assert!(seen.len() > 1);
}

fn go(session: &mut Session, client: &mut ClientState, event: SessionEvent) -> Option<String> {
    session.advance(client, event)
}

#[test]
fn a_session_from_login_to_logout() {
    let mut s = Session::begin();
    let mut c = ClientState::fresh();
    c.stop();
    assert!(go(&mut s, &mut c, SessionEvent::Connected(Ok(()))).is_none());
    assert!(c.shouldRun && matches!(s.stage, Stage::Initializing));
    go(&mut s, &mut c, SessionEvent::Initialized(Ok(())));
    assert!(matches!(s.stage, Stage::AwaitingClean));
    go(&mut s, &mut c, SessionEvent::Cleaned(CleanOutcome::Clean));
    assert!(s.cleaned && matches!(s.stage, Stage::Looking));
    go(&mut s, &mut c, SessionEvent::Looked);
    assert!(matches!(s.stage, Stage::Running));
    go(&mut s, &mut c, SessionEvent::Ran(AppLoopAction::Continue));
    assert!(matches!(s.stage, Stage::Looking));
    c.pause();
    go(&mut s, &mut c, SessionEvent::Looked);
    assert!(matches!(s.stage, Stage::Pausing));
    go(&mut s, &mut c, SessionEvent::Slept);
    assert!(matches!(s.stage, Stage::Looking));
    c.paused = false;
    go(&mut s, &mut c, SessionEvent::Looked);
    let notice = go(&mut s, &mut c, SessionEvent::Ran(AppLoopAction::FatalStop("f".to_string())));
    assert_eq!(
        notice.as_deref(),
        Some("A fatal error has occurred. Shutting down because:\n\tf")
    );
    assert!(!c.shouldRun && matches!(s.stage, Stage::Looking));
    go(&mut s, &mut c, SessionEvent::Looked);
    assert!(matches!(s.stage, Stage::Stopping { relogin: false }));
    go(&mut s, &mut c, SessionEvent::Stopped);
    assert!(matches!(s.stage, Stage::CleaningUp));
    go(&mut s, &mut c, SessionEvent::CleanedUp);
    assert!(matches!(s.stage, Stage::Over(Ok(()))));
}

#[test]
fn a_dead_session_is_tried_three_times() {
    let mut s = Session::begin();
    let mut c = ClientState::fresh();
    let mut logins = 0;
    loop {
        let event = match s.stage {
            Stage::Connecting => {
                logins += 1;
                SessionEvent::Connected(Ok(()))
            }
            Stage::Initializing => SessionEvent::Initialized(Ok(())),
            Stage::AwaitingClean => SessionEvent::Cleaned(CleanOutcome::Clean),
            Stage::Looking => SessionEvent::Looked,
            Stage::Pausing | Stage::Resting => SessionEvent::Slept,
            Stage::Running => SessionEvent::Ran(AppLoopAction::CreateNewSession),
            Stage::Stopping { .. } => SessionEvent::Stopped,
            Stage::CleaningUp => SessionEvent::CleanedUp,
            Stage::Over(_) => break,
        };
        s.advance(&mut c, event);
        assert!(1 <= s.attempts && s.attempts <= 3);
    }
    assert_eq!(logins, 3);
    assert!(matches!(s.stage, Stage::Over(Ok(()))));
}

#[test]
fn a_good_round_makes_the_attempts_start_anew() {
    let mut s = Session { stage: Stage::Running, attempts: 3, cleaned: true };
    let mut c = ClientState::fresh();
    s.advance(&mut c, SessionEvent::Ran(AppLoopAction::Continue));
    assert_eq!(s.attempts, 1);
    s.stage = Stage::Running;
    s.advance(&mut c, SessionEvent::Ran(AppLoopAction::CreateNewSession));
    assert_eq!(s.attempts, 2);
    assert!(!c.shouldRun && matches!(s.stage, Stage::Stopping { relogin: true }));
    s.advance(&mut c, SessionEvent::Stopped);
    assert!(matches!(s.stage, Stage::Resting));
    s.advance(&mut c, SessionEvent::Slept);
    assert!(matches!(s.stage, Stage::Connecting));
    s.advance(&mut c, SessionEvent::Connected(Ok(())));
    s.advance(&mut c, SessionEvent::Initialized(Ok(())));
    assert!(matches!(s.stage, Stage::Looking));
}

#[test]
fn sessions_that_fail() {
    let mut c = ClientState::fresh();
    let mut s = Session::begin();
    s.advance(&mut c, SessionEvent::Connected(Err("refused".to_string())));
    assert!(matches!(s.stage, Stage::Over(Err(m)) if m == "refused"));
    let mut s = Session { stage: Stage::Initializing, attempts: 1, cleaned: false };
    let notice = s.advance(&mut c, SessionEvent::Initialized(Err("e".to_string())));
    assert_eq!(notice.as_deref(), Some("Failed to init: e"));
    assert!(!c.shouldRun && matches!(s.stage, Stage::AwaitingClean));
    s.advance(&mut c, SessionEvent::Cleaned(CleanOutcome::Failed("x".to_string())));
    assert!(matches!(s.stage, Stage::Over(Err(m)) if m == "Failed to clean working dir because: x"));
    let mut s = Session { stage: Stage::AwaitingClean, attempts: 1, cleaned: false };
    s.advance(&mut c, SessionEvent::Cleaned(CleanOutcome::Lost));
    assert!(matches!(s.stage, Stage::Over(Err(m)) if m == "Failed to execute"));
}

#[test]
fn a_session_is_kept_alive() {
    let mut state = ClientState::fresh();
    let at = TimeSpan::fromSecs;
    assert!(matches!(keepAlive(&state, None, at(0)), KeepAliveStep::Poke));
    assert!(matches!(keepAlive(&state, Some(at(100)), at(100)), KeepAliveStep::Sleep(t) if t == at(2)));
    assert!(matches!(keepAlive(&state, Some(at(100)), at(999)), KeepAliveStep::Sleep(t) if t == at(1)));
    assert!(matches!(keepAlive(&state, Some(at(100)), at(1000)), KeepAliveStep::Poke));
    assert!(matches!(keepAlive(&state, Some(at(100)), at(50)), KeepAliveStep::Sleep(t) if t == at(2)));
    state.stop();
    assert!(matches!(keepAlive(&state, None, at(0)), KeepAliveStep::End));
    assert!(matches!(afterPoke(true), AfterPoke::Remember));
    assert!(matches!(afterPoke(false), AfterPoke::Sleep(60)));
}

#[test]
fn what_the_uploader_does() {
    let message = FrameUploadMessage::Frame(frame("https://v", "o.png"));
    assert!(matches!(uploaderStep(Some(message)), UploaderStep::Upload(f) if f.memoryUsed == 2048));
    assert!(matches!(uploaderStep(Some(FrameUploadMessage::End)), UploaderStep::End));
    assert!(matches!(uploaderStep(None), UploaderStep::End));
    assert_eq!(cleanupNotice(&Some(Err("e".to_string()))), "Failed to clean work dir: e");
    assert_eq!(cleanupNotice(&Some(Ok(()))), "Cleaned up!");
    assert_eq!(cleanupNotice(&None), "Cleaned up!");
}

#[test]
fn a_frame_is_announced() {
    let request = uploadRequest(&frame("HTTPS://V.org/?a=b", "17_1.exr"), Some("12.5")).unwrap();
    assert_eq!(request.url, "https://v.org/?a=b");
    let query: Vec<(&str, &str)> =
        request.query.iter().map(|(a, b)| (a.as_str(), b.as_str())).collect();
    assert_eq!(query, vec![("rendertime", "61"), ("memoryused", "2048"), ("speedsamples", "12.5")]);
    assert_eq!(request.partName, "file");
    assert_eq!(request.mime, "image/exr");
    assert_eq!(request.fileName, "17_1.exr");
    let plain = uploadTo("u".to_string(), &frame("", "bare"), None);
    assert_eq!(plain.mime, "image/png");
    assert_eq!(plain.query.len(), 2);
    let above = uploadTo("u".to_string(), &frame("", ".."), None);
    assert_eq!((above.mime.as_str(), above.fileName.as_str()), ("image/png", ""));
    assert_eq!(
        uploadRequest(&frame("nowhere", "o"), None).unwrap_err(),
        "relative URL without a base"
    );
    assert!(validationOutcome(0).is_ok());
    assert_eq!(validationOutcome(-3).unwrap_err(), "Got back validation code -3");
}

#[test]
fn a_frame_is_sent_three_times_at_most() {
    let mut retry = UploadRetry::first();
    let fail = || Err("e".to_string());
    let mut sent = frame("https://v", "o.png");
    match retry.after(&sent, fail()) {
        UploadStep::Retry { secs, failure, notice } => {
            assert_eq!(secs, 22);
            assert_eq!(failure, "Failed to upload frame because: e (attempt 1)");
            assert_eq!(notice, "Failed to upload frame. trying in 22 seconds");
        }
        UploadStep::Over { .. } => panic!("given up"),
    }
    assert!(matches!(retry.after(&sent, fail()), UploadStep::Retry { secs: 44, .. }));
    assert_eq!(retry.attempt, 3);
    match retry.after(&sent, fail()) {
        UploadStep::Over { result, remove } => {
            assert_eq!(result.unwrap_err(), "Failed to upload frame because: e");
            assert_eq!(remove.len(), 1);
            assert_eq!(remove[0].pieces, sent.output.pieces);
        }
        UploadStep::Retry { .. } => panic!("sent once more"),
    }
    sent.outputPreview = Some(PathPieces::of("p.jpg"));
    match UploadRetry::first().after(&sent, Ok(())) {
        UploadStep::Over { result, remove } => {
            assert!(result.is_ok());
            assert_eq!(remove.len(), 2);
            assert_eq!(remove[0].pieces, sent.output.pieces);
            assert_eq!(remove[1].pieces, vec!["p.jpg"]);
        }
        UploadStep::Retry { .. } => panic!("sent once more"),
    }
}

#[test]
fn frames_before_the_end_are_uploaded() {
    let message = |name: &str| Some(FrameUploadMessage::Frame(frame("https://v", name)));
    let sent = vec![message("a"), message("b"), Some(FrameUploadMessage::End), message("c")];
    let mut uploaded = vec![];
    for message in sent {
        match uploaderStep(message) {
            UploaderStep::Upload(frame) => uploaded.push(frame.output.pieces.last().cloned()),
            UploaderStep::End => break,
        }
    }
    assert_eq!(uploaded, vec![Some("a".to_string()), Some("b".to_string())]);
}

#[test]
fn a_job_is_worked_on() {
    let job = the_job(true);
    let next = |stage, event| execute_job(&job, stage, event);
    assert!(matches!(next(JobStage::Downloading, JobEvent::Downloaded(Ok(()))), JobStage::Preparing));
    assert!(matches!(next(JobStage::Preparing, JobEvent::Prepared(Ok(()))), JobStage::Rendering));
    assert!(matches!(next(JobStage::Rendering, JobEvent::Rendered(true)), JobStage::Uploading));
    assert!(matches!(
        execute_job(&the_job(false), JobStage::Rendering, JobEvent::Rendered(true)),
        JobStage::Queueing
    ));
    assert!(matches!(
        next(JobStage::Rendering, JobEvent::Rendered(false)),
        JobStage::DeletingScene(Ok(()))
    ));
    assert!(matches!(
        next(JobStage::Uploading, JobEvent::Delivered(Err("e".to_string()))),
        JobStage::DeletingScene(Err(m)) if m == "e"
    ));
    assert!(matches!(
        next(JobStage::DeletingScene(Err("e".to_string())), JobEvent::SceneDeleted),
        JobStage::Over(Err(m)) if m == "e"
    ));
    assert!(matches!(
        next(JobStage::Downloading, JobEvent::Downloaded(Err("d".to_string()))),
        JobStage::Over(Err(m)) if m == "d"
    ));
    assert!(matches!(
        next(JobStage::Preparing, JobEvent::Prepared(Err("p".to_string()))),
        JobStage::Over(Err(m)) if m == "p"
    ));
}

#[test]
fn the_working_directory_is_prepared() {
    let plan = prepareWorkingDirectory(&client_config(), &the_job(false));
    assert_eq!(plan.rendererArchive.pieces, vec!["/c", "abc.zip"]);
    assert_eq!(plan.rendererFolder.pieces, vec!["/w", "abc"]);
    assert_eq!(plan.rendererMark.pieces, vec!["/w", "abc", "rend.exe"]);
    assert_eq!(plan.sceneFolder.pieces, vec!["/w", "17"]);
    let chunks: Vec<Vec<String>> = plan.chunks.into_iter().map(|p| p.pieces).collect();
    assert_eq!(chunks, vec![vec!["/w", "c1.wool"], vec!["/w", "c2.wool"]]);
    assert!(unpackRenderer(&Ok(false)) && unpackRenderer(&Err("e".to_string())));
    assert!(!unpackRenderer(&Ok(true)));
    assert_eq!(
        rendererUnpacked(Err("e".to_string())).unwrap_err(),
        "Failed to unzip renderer because: e"
    );
    assert_eq!(sceneUnpacked(Err("e".to_string())).unwrap_err(), "Failed to unzip scene because: e");
    assert!(rendererUnpacked(Ok(())).is_ok() && sceneUnpacked(Ok(())).is_ok());
    assert_eq!(archiveSize(&vec![]), Some(0));
    assert_eq!(archiveSize(&vec![1, 2, 3]), Some(6));
    assert_eq!(archiveSize(&vec![u64::MAX, 1]), None);
}
