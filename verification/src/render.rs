//! Rendering a job: watching the renderer, and what is made of its output.

use vstd::prelude::*;

use crate::conf::{ClientConfig, path_view, span_view};
use crate::job::Job;
use crate::outside::regex_captures;
use crate::paths::{PathPieces, extension, extension_of, fileName, file_name_of, path_views};
use crate::process::{
    BEGIN_POST_PROCESSING, BLENDER_VERSION, BlendProcessInfo, ProcStatus, RENDER_PROGRESS,
    SAMPLE_SPEED, SampleSpeed, echo_count, line_observed, observeBlendStdout, observed, speed_told,
};
use crate::span::{SECOND, SPAN_MAX, TimeSpan};
use crate::text::{glue, glue3, startsWith, strEq, trimmed, views};
use crate::utils::{because, messageBecause};

verus! {

/// A frame that was rendered.
#[derive(Debug)]
pub struct RenderResult {
    pub validationUrl: String,
    pub output: PathPieces,
    pub outputPreview: Option<PathPieces>,
    pub memoryUsed: u64,
    pub renderTime: TimeSpan,
    pub speedSamplesRendered: Option<SampleSpeed>,
}

/// Why there is no frame.
#[derive(Debug)]
pub enum RenderError {
    Unknown(String),
    NoOutputFile,
    RendererCrashed,
    RendererMissingLibraries,
    ValidationFailed,
}

// Watching the process

/// When the renderer is to be stopped, if ever: two seconds after the time that it may take.
pub open spec fn kill_delay(maxRenderTime: Option<nat>) -> Option<nat> {
    match maxRenderTime {
        Some(limit) => Some(
            if limit + 2 * SECOND <= SPAN_MAX {
                (limit + 2 * SECOND) as nat
            } else {
                limit
            },
        ),
        None => None,
    }
}

/// When the renderer is to be stopped, if ever: two seconds after the time that it may take.
pub fn killDelay(maxRenderTime: Option<TimeSpan>) -> (r: Option<TimeSpan>)
    ensures
        span_view(r) == kill_delay(span_view(maxRenderTime)),
{
    match maxRenderTime {
        None => None,
        Some(limit) => match limit.checkedAdd(TimeSpan::fromSecs(2)) {
            Some(delay) => Some(delay),
            None => Some(limit),
        },
    }
}

/// Whether a process is known to be running.
pub open spec fn still_runs(info: BlendProcessInfo) -> bool {
    info.status is Running
}

/// Marks a process that still runs when its time is up. Whether it is to be stopped is given
/// back.
pub fn onTimeout(info: &mut BlendProcessInfo) -> (r: bool)
    ensures
        stepped(*old(info), ProcessStep::Timeout, *final(info)),
        r == (old(info).status is Running),
        r == still_runs(*old(info)),
        *final(info) == (BlendProcessInfo {
            status: if old(info).status is Running {
                ProcStatus::TookTooLong
            } else {
                old(info).status
            },
            ..*old(info)
        }),
{
    if info.status == ProcStatus::Running {
        info.status = ProcStatus::TookTooLong;
        true
    } else {
        false
    }
}

/// Takes in how much memory the process uses, while it runs. Whether the watch is over with that
/// is given back: one look at a running process is enough.
pub fn observeMemory(info: &mut BlendProcessInfo, memory: &Result<u64, String>) -> (r: bool)
    ensures
        stepped(
            *old(info),
            ProcessStep::Memory(
                match *memory {
                    Ok(used) => Some(used),
                    Err(_) => None,
                },
            ),
            *final(info),
        ),
        r == (old(info).status is Running),
        r == still_runs(*old(info)),
        *final(info) == match *memory {
            Ok(used) if old(info).status is Running => (BlendProcessInfo {
                memUsage: used,
                maxMemUsage: if used > old(info).maxMemUsage {
                    used
                } else {
                    old(info).maxMemUsage
                },
                ..*old(info)
            }),
            _ => *old(info),
        },
{
    if info.status == ProcStatus::Running {
        if let Ok(used) = memory {
            info.memUsage = *used;
            if *used > info.maxMemUsage {
                info.maxMemUsage = *used;
            }
        }
        true
    } else {
        false
    }
}

/// What is done with a line of the renderer's output.
pub struct LineOutcome {
    /// How often the line is echoed.
    pub echoes: u32,
    /// A number of samples and the text of the time that they took, if the line tells.
    pub speed: Option<(i32, String)>,
    /// Whether no more lines are to be read.
    pub exited: bool,
}

/// Takes in a line of the renderer's output, at a time.
pub fn scanLine(info: &mut BlendProcessInfo, line: &str, now: TimeSpan) -> (r: LineOutcome)
    ensures
        line_observed(*old(info), *final(info), line@, now),
        r.echoes == echo_count(
            *old(info),
            trimmed(line@),
            regex_captures(BLENDER_VERSION@, trimmed(line@)),
            regex_captures(RENDER_PROGRESS@, trimmed(line@)),
            regex_captures(BEGIN_POST_PROCESSING@, trimmed(line@)) is Some,
        ),
        speed_told(regex_captures(SAMPLE_SPEED@, trimmed(line@)), r.speed),
        r.exited == !still_runs(*old(info)),
{
    let told = observeBlendStdout(info, line, now);
    LineOutcome { echoes: told.echoes, speed: told.speed, exited: info.status != ProcStatus::Running }
}

/// How a look at the process went.
#[derive(Debug)]
pub enum PollEvent {
    /// Something else is looking at it.
    Busy,
    Alive,
    /// It has ended, well or not.
    Exited(bool),
    Failed(String),
}

/// What follows from a look at the process.
#[derive(Debug)]
pub enum PollStep {
    Again,
    Finished,
    Error(RenderError),
}

/// Whether a step is what follows from a look at the process.
pub open spec fn polled(event: PollEvent, step: PollStep) -> bool {
    match event {
        PollEvent::Busy | PollEvent::Alive => step is Again,
        PollEvent::Exited(success) => if success {
            step is Finished
        } else {
            step == PollStep::Error(RenderError::RendererCrashed)
        },
        PollEvent::Failed(e) => match step {
            PollStep::Error(RenderError::Unknown(message)) => message@
                == "There was en error pooling blender process status: "@ + e@,
            _ => false,
        },
    }
}

/// What follows from a look at the process.
pub fn pollStep(event: PollEvent) -> (r: PollStep)
    ensures
        polled(event, r),
{
    match event {
        PollEvent::Busy | PollEvent::Alive => PollStep::Again,
        PollEvent::Exited(success) => if success {
            PollStep::Finished
        } else {
            PollStep::Error(RenderError::RendererCrashed)
        },
        PollEvent::Failed(e) => PollStep::Error(
            RenderError::Unknown(
                glue("There was en error pooling blender process status: ", e.as_str()),
            ),
        ),
    }
}

// Output

/// How the names of a job's output files start.
pub open spec fn output_prefix(job: Job) -> Seq<char> {
    job.info.id@ + "_"@ + job.info.frameNumber@ + "."@
}

/// How the names of a job's output files start.
pub fn outputPrefix(job: &Job) -> (r: String)
    ensures
        r@ == output_prefix(*job),
{
    let mut prefix = glue3(job.info.id.as_str(), "_", job.info.frameNumber.as_str());
    prefix.append(".");
    prefix
}

/// The first of the names that starts in the given way.
pub open spec fn first_with(names: Seq<Seq<char>>, prefix: Seq<char>) -> Option<Seq<char>>
    decreases names.len(),
{
    if names.len() == 0 {
        None
    } else if prefix.is_prefix_of(names[0]) {
        Some(names[0])
    } else {
        first_with(names.skip(1), prefix)
    }
}

/// The first of the names that starts in the given way.
pub fn firstWith(names: &Vec<String>, prefix: &str) -> (r: Option<String>)
    ensures
        match r {
            Some(name) => first_with(views(names@), prefix@) == Some(name@),
            None => first_with(views(names@), prefix@) is None,
        },
{
    let mut i: usize = 0;
    assert(views(names@).skip(0) == views(names@));
    while i < names.len()
        invariant
            i <= names@.len(),
            first_with(views(names@), prefix@) == first_with(views(names@).skip(i as int), prefix@),
        decreases names@.len() - i,
    {
        assert(views(names@).skip(i as int)[0] == names@[i as int]@);
        if startsWith(names[i].as_str(), prefix) {
            return Some(names[i].clone());
        }
        assert(views(names@).skip(i as int).skip(1) == views(names@).skip(i as int + 1));
        i += 1;
    }
    None
}

/// A name that was found is one of the names and starts in the given way; one that was not found
/// is not there.
pub proof fn law_first_with(names: Seq<Seq<char>>, prefix: Seq<char>)
    ensures
        match first_with(names, prefix) {
            Some(name) => names.contains(name) && prefix.is_prefix_of(name),
            None => forall|i: int|
                0 <= i < names.len() ==> !prefix.is_prefix_of(#[trigger] names[i]),
        },
    decreases names.len(),
{
    if names.len() > 0 && !prefix.is_prefix_of(names[0]) {
        let rest = names.skip(1);
        law_first_with(rest, prefix);
        match first_with(rest, prefix) {
            Some(name) => {
                let k = choose|k: int| 0 <= k < rest.len() && rest[k] == name;
                assert(names[k + 1] == name);
            },
            None => {
                assert forall|i: int| 0 <= i < names.len() implies !prefix.is_prefix_of(
                    #[trigger] names[i],
                ) by {
                    if i > 0 {
                        assert(rest[i - 1] == names[i]);
                    }
                }
            },
        }
    }
}

/// Which of a job's output files is the frame, and which its preview.
#[derive(Debug)]
pub enum OutputChoice {
    Missing,
    TooMany,
    Files(PathPieces, Option<PathPieces>),
}

/// Which extension the file at a path has.
pub open spec fn path_extension(path: Seq<Seq<char>>) -> Option<Seq<char>> {
    match file_name_of(path) {
        Some(name) => extension_of(name),
        None => None,
    }
}

/// Which extension the file at a path has.
pub fn pathExtension(path: &PathPieces) -> (r: Option<String>)
    ensures
        match r {
            Some(e) => path_extension(path@) == Some(e@),
            None => path_extension(path@) is None,
        },
{
    match fileName(path) {
        Some(name) => extension(name.as_str()),
        None => None,
    }
}

/// Whether a choice is the one among a job's output files.
pub open spec fn outputs_chosen(files: Seq<Seq<Seq<char>>>, choice: OutputChoice) -> bool {
    match choice {
        OutputChoice::Missing => files.len() == 0,
        OutputChoice::TooMany => files.len() > 2,
        OutputChoice::Files(output, preview) => {
            ||| files.len() == 1 && output@ == files[0] && preview is None
            ||| files.len() == 2 && if path_extension(files[0]) == Some("exr"@) {
                output@ == files[1] && path_view(preview) == Some(files[0])
            } else {
                output@ == files[0] && path_view(preview) == Some(files[1])
            }
        },
    }
}

/// Chooses among a job's output files: a single one is the frame; of two, the one that is no
/// `exr` file is, and the other its preview. The last piece of each path is a file name.
pub fn chooseOutputs(files: &Vec<PathPieces>) -> (r: OutputChoice)
    ensures
        outputs_chosen(path_views(files@), r),
{
    if files.len() == 0 {
        OutputChoice::Missing
    } else if files.len() == 1 {
        OutputChoice::Files(files[0].clone(), None)
    } else if files.len() == 2 {
        let exr = match pathExtension(&files[0]) {
            Some(e) => strEq(e.as_str(), "exr"),
            None => false,
        };
        if exr {
            OutputChoice::Files(files[1].clone(), Some(files[0].clone()))
        } else {
            OutputChoice::Files(files[0].clone(), Some(files[1].clone()))
        }
    } else {
        OutputChoice::TooMany
    }
}

/// Whether a result is what is made of a job's output: the time is that from the first sign of
/// rendering to the first sign of finishing, and both must have been seen.
pub open spec fn is_result(
    job: Job,
    info: BlendProcessInfo,
    output: Seq<Seq<char>>,
    preview: Option<Seq<Seq<char>>>,
    result: Result<RenderResult, RenderError>,
) -> bool {
    match (info.compositStart, info.renderStart) {
        (None, _) => refused_with(result, "No composit start encountered"@),
        (Some(_), None) => refused_with(result, "No render start encountered"@),
        (Some(end), Some(start)) => {
            &&& result is Ok
            &&& result->Ok_0.validationUrl@ == job.info.validationUrl@
            &&& result->Ok_0.output@ == output
            &&& path_view(result->Ok_0.outputPreview) == preview
            &&& result->Ok_0.memoryUsed == info.maxMemUsage
            &&& result->Ok_0.renderTime@ == if end@ >= start@ {
                (end@ - start@) as nat
            } else {
                0
            }
            &&& result->Ok_0.speedSamplesRendered == info.speedSamplesRendered
        },
    }
}

/// Whether a result is a refusal with the given message.
pub open spec fn refused_with(
    result: Result<RenderResult, RenderError>,
    message: Seq<char>,
) -> bool {
    match result {
        Err(RenderError::Unknown(m)) => m@ == message,
        _ => false,
    }
}

/// What is made of a job's output.
pub fn renderResult(
    job: &Job,
    info: &BlendProcessInfo,
    output: PathPieces,
    preview: Option<PathPieces>,
) -> (r: Result<RenderResult, RenderError>)
    ensures
        is_result(*job, *info, output@, path_view(preview), r),
{
    let end = match info.compositStart {
        Some(end) => end,
        None => {
            return Err(RenderError::Unknown("No composit start encountered".to_owned()));
        },
    };
    let start = match info.renderStart {
        Some(start) => start,
        None => {
            return Err(RenderError::Unknown("No render start encountered".to_owned()));
        },
    };
    Ok(
        RenderResult {
            validationUrl: job.info.validationUrl.clone(),
            output,
            outputPreview: preview,
            memoryUsed: info.maxMemUsage,
            renderTime: end.saturatingSub(start),
            speedSamplesRendered: info.speedSamplesRendered,
        },
    )
}

/// Whether a result is what is made of a job once its process has ended well, with files of the
/// given names in the working directory.
pub open spec fn finished(
    job: Job,
    conf: ClientConfig,
    info: BlendProcessInfo,
    names: Result<Vec<String>, String>,
    result: Result<RenderResult, RenderError>,
) -> bool {
    match names {
        Err(e) => refused_with(result, because("Failed to read work directory"@, e@)),
        Ok(list) => match first_with(views(list@), output_prefix(job)) {
            None => result == Err::<RenderResult, RenderError>(RenderError::NoOutputFile),
            Some(name) => is_result(job, info, seq![conf.workPath@, name], None, result),
        },
    }
}

/// What is made of a job once its process has ended well. `names` are those of the files in the
/// working directory, in the order in which they were met: the first output file among them is
/// the frame.
pub fn finishRender(
    job: &Job,
    conf: &ClientConfig,
    info: &BlendProcessInfo,
    names: &Result<Vec<String>, String>,
) -> (r: Result<RenderResult, RenderError>)
    ensures
        finished(*job, *conf, *info, *names, r),
{
    let list = match names {
        Ok(list) => list,
        Err(e) => {
            return Err(
                RenderError::Unknown(messageBecause("Failed to read work directory", e.as_str())),
            );
        },
    };
    let mut files: Vec<PathPieces> = Vec::new();
    if let Some(name) = firstWith(list, outputPrefix(job).as_str()) {
        let path = PathPieces::of(conf.workPath.as_str()).join(name.as_str());
        assert(path@ == seq![conf.workPath@, name@]);
        files.push(path);
        assert(path_views(files@) == seq![path@]);
    }
    match chooseOutputs(&files) {
        OutputChoice::Files(output, preview) => renderResult(job, info, output, preview),
        _ => Err(RenderError::NoOutputFile),
    }
}

// The whole course

/// What the client is about, when it renders a job.
#[derive(Debug)]
pub enum RenderStage {
    /// Writing the renderer's scripts, and putting its command together.
    Commanding,
    /// Starting its process.
    Starting,
    /// Looking whether the process has ended.
    Polling,
    /// Listing the files in the working directory.
    Listing,
    /// Deleting the scripts; how the job went is settled.
    DeletingScripts(Result<RenderResult, RenderError>),
    Over(Result<RenderResult, RenderError>),
}

/// How the start of the renderer's process went.
#[derive(Debug)]
pub enum StartOutcome {
    Started,
    Failed(String),
    NoStdout,
    NoStderr,
    NoPid,
}

/// What ends a stage of a render.
#[derive(Debug)]
pub enum RenderEvent {
    Commanded(Result<(), String>),
    Started(StartOutcome),
    Polled(PollEvent),
    /// The names of the files, in the order in which they were met.
    Listed(Result<Vec<String>, String>),
    ScriptsDeleted,
}

/// Whether an event is one that ends a stage.
pub open spec fn settles(stage: RenderStage, event: RenderEvent) -> bool {
    match stage {
        RenderStage::Commanding => event is Commanded,
        RenderStage::Starting => event is Started,
        RenderStage::Polling => event is Polled,
        RenderStage::Listing => event is Listed,
        RenderStage::DeletingScripts(_) => event is ScriptsDeleted,
        RenderStage::Over(_) => false,
    }
}

/// Whether a stage is that of a render which has failed, with its scripts still there.
pub open spec fn failing_with(stage: RenderStage, message: Seq<char>) -> bool {
    match stage {
        RenderStage::DeletingScripts(result) => refused_with(result, message),
        _ => false,
    }
}

/// Whether an event leads from one stage of a render to another.
pub open spec fn render_led(
    job: Job,
    conf: ClientConfig,
    before: RenderStage,
    infoBefore: BlendProcessInfo,
    event: RenderEvent,
    after: RenderStage,
    info: BlendProcessInfo,
) -> bool {
    let same = info == infoBefore;
    match event {
        RenderEvent::Commanded(Ok(_)) => same && after is Starting,
        RenderEvent::Commanded(Err(e)) => same && match after {
            RenderStage::Over(result) => refused_with(result, e@),
            _ => false,
        },
        RenderEvent::Started(StartOutcome::Started) => same && after is Polling,
        RenderEvent::Started(StartOutcome::Failed(e)) => same && failing_with(after, e@),
        RenderEvent::Started(StartOutcome::NoStdout) => same && failing_with(
            after,
            "Failed to acquire stdout"@,
        ),
        RenderEvent::Started(StartOutcome::NoStderr) => same && failing_with(
            after,
            "Failed to acquire stderr"@,
        ),
        RenderEvent::Started(StartOutcome::NoPid) => same && failing_with(
            after,
            "Failed to get process PID"@,
        ),
        RenderEvent::Polled(PollEvent::Busy | PollEvent::Alive) => same && after is Polling,
        RenderEvent::Polled(PollEvent::Exited(success)) => if success {
            &&& info == (BlendProcessInfo { status: ProcStatus::ExitedOk, ..infoBefore })
            &&& after is Listing
        } else {
            same && after == RenderStage::DeletingScripts(Err(RenderError::RendererCrashed))
        },
        RenderEvent::Polled(PollEvent::Failed(e)) => same && failing_with(
            after,
            "There was en error pooling blender process status: "@ + e@,
        ),
        RenderEvent::Listed(names) => same && match after {
            RenderStage::DeletingScripts(result) => finished(job, conf, info, names, result),
            _ => false,
        },
        RenderEvent::ScriptsDeleted => same && match before {
            RenderStage::DeletingScripts(result) => after == RenderStage::Over(result),
            _ => false,
        },
    }
}

fn unknown(message: String) -> (r: RenderStage)
    ensures
        failing_with(r, message@),
{
    RenderStage::DeletingScripts(Err(RenderError::Unknown(message)))
}

/// Goes on to the next stage of a render.
pub fn render(
    job: &Job,
    conf: &ClientConfig,
    info: &mut BlendProcessInfo,
    stage: RenderStage,
    event: RenderEvent,
) -> (r: RenderStage)
    requires
        settles(stage, event),
    ensures
        render_led(*job, *conf, stage, *old(info), event, r, *final(info)),
{
    match event {
        RenderEvent::Commanded(Ok(_)) => RenderStage::Starting,
        RenderEvent::Commanded(Err(e)) => RenderStage::Over(Err(RenderError::Unknown(e))),
        RenderEvent::Started(outcome) => match outcome {
            StartOutcome::Started => RenderStage::Polling,
            StartOutcome::Failed(e) => unknown(e),
            StartOutcome::NoStdout => unknown("Failed to acquire stdout".to_owned()),
            StartOutcome::NoStderr => unknown("Failed to acquire stderr".to_owned()),
            StartOutcome::NoPid => unknown("Failed to get process PID".to_owned()),
        },
        RenderEvent::Polled(event) => match pollStep(event) {
            PollStep::Again => RenderStage::Polling,
            PollStep::Finished => {
                info.status = ProcStatus::ExitedOk;
                RenderStage::Listing
            },
            PollStep::Error(e) => RenderStage::DeletingScripts(Err(e)),
        },
        RenderEvent::Listed(names) => RenderStage::DeletingScripts(
            finishRender(job, conf, info, &names),
        ),
        RenderEvent::ScriptsDeleted => match stage {
            RenderStage::DeletingScripts(result) => RenderStage::Over(result),
            other => other,
        },
    }
}

/// Whether events lead through the stages of a render, from its first.
pub open spec fn rendered(
    job: Job,
    conf: ClientConfig,
    stages: Seq<RenderStage>,
    infos: Seq<BlendProcessInfo>,
    events: Seq<RenderEvent>,
) -> bool {
    &&& stages.len() == events.len() + 1
    &&& infos.len() == events.len() + 1
    &&& stages[0] is Commanding
    &&& forall|i: int|
        0 <= i < events.len() ==> #[trigger] render_leads(job, conf, stages, infos, events, i)
}

/// Whether an event of a render leads to the stage behind it. Between two events the process may
/// be watched.
pub open spec fn render_leads(
    job: Job,
    conf: ClientConfig,
    stages: Seq<RenderStage>,
    infos: Seq<BlendProcessInfo>,
    events: Seq<RenderEvent>,
    i: int,
) -> bool {
    &&& settles(stages[i], events[i])
    &&& exists|info: BlendProcessInfo|
        #[trigger] render_led(job, conf, stages[i], infos[i], events[i], stages[i + 1], info)
}

/// Whether the scripts were written.
pub open spec fn was_commanded(events: Seq<RenderEvent>) -> bool {
    events.len() > 0 && events[0] is Commanded && events[0]->Commanded_0 is Ok
}

/// A render that is over had its scripts deleted, right before, if and only if they were written;
/// and there is a frame only if the process ended well.
pub proof fn law_scripts_deleted(
    job: Job,
    conf: ClientConfig,
    stages: Seq<RenderStage>,
    infos: Seq<BlendProcessInfo>,
    events: Seq<RenderEvent>,
)
    requires
        rendered(job, conf, stages, infos, events),
        stages.last() is Over,
    ensures
        events.len() > 0,
        (stages[stages.len() - 2] is DeletingScripts) <==> was_commanded(events),
        stages.last()->Over_0 is Ok ==> ended_well(events),
{
    lemma_render(job, conf, stages, infos, events);
    let n = events.len() - 1;
    assert(render_leads(job, conf, stages, infos, events, n));
    if n > 0 {
        lemma_render_before(job, conf, stages, infos, events);
        lemma_render(job, conf, stages.drop_last(), infos.drop_last(), events.drop_last());
    }
}

/// Whether the process was seen to have ended well.
pub open spec fn ended_well(events: Seq<RenderEvent>) -> bool {
    exists|i: int| 0 <= i < events.len() && #[trigger] is_good_end(events[i])
}

/// Whether an event tells that the process has ended well.
pub open spec fn is_good_end(event: RenderEvent) -> bool {
    match event {
        RenderEvent::Polled(PollEvent::Exited(success)) => success,
        _ => false,
    }
}

proof fn lemma_render_before(
    job: Job,
    conf: ClientConfig,
    stages: Seq<RenderStage>,
    infos: Seq<BlendProcessInfo>,
    events: Seq<RenderEvent>,
)
    requires
        rendered(job, conf, stages, infos, events),
        events.len() > 0,
    ensures
        rendered(job, conf, stages.drop_last(), infos.drop_last(), events.drop_last()),
{
    let s = stages.drop_last();
    let n = infos.drop_last();
    let e = events.drop_last();
    assert forall|i: int| 0 <= i < e.len() implies #[trigger] render_leads(
        job,
        conf,
        s,
        n,
        e,
        i,
    ) by {
        assert(render_leads(job, conf, stages, infos, events, i));
        let info = choose|info: BlendProcessInfo|
            #[trigger] render_led(job, conf, stages[i], infos[i], events[i], stages[i + 1], info);
        assert(render_led(job, conf, s[i], n[i], e[i], s[i + 1], info));
    }
}

/// What the stage of a render tells of what happened before.
proof fn lemma_render(
    job: Job,
    conf: ClientConfig,
    stages: Seq<RenderStage>,
    infos: Seq<BlendProcessInfo>,
    events: Seq<RenderEvent>,
)
    requires
        rendered(job, conf, stages, infos, events),
    ensures
        match stages.last() {
            RenderStage::Commanding => events.len() == 0,
            RenderStage::Starting | RenderStage::Polling => was_commanded(events),
            RenderStage::Listing => was_commanded(events) && ended_well(events),
            RenderStage::DeletingScripts(result) => was_commanded(events) && (result is Ok
                ==> ended_well(events)),
            RenderStage::Over(result) => (result is Ok ==> ended_well(events)) && events.len() > 0
                && (!was_commanded(events) ==> events.len() == 1),
        },
    decreases events.len(),
{
    if events.len() > 0 {
        let n = events.len() - 1;
        let before = events.drop_last();
        lemma_render_before(job, conf, stages, infos, events);
        lemma_render(job, conf, stages.drop_last(), infos.drop_last(), before);
        assert(stages.drop_last().last() == stages[n]);
        assert(render_leads(job, conf, stages, infos, events, n));
        if n > 0 {
            assert(before[0] == events[0]);
        }
        if ended_well(before) {
            let i = choose|i: int| 0 <= i < before.len() && #[trigger] is_good_end(before[i]);
            assert(is_good_end(events[i]));
        }
        if is_good_end(events[n]) {
            assert(ended_well(events));
        }
    }
}

// What holds of a process throughout

/// What is always true of what is known of a process: it has used at least as much memory as it
/// uses.
pub open spec fn memory_known(info: BlendProcessInfo) -> bool {
    info.memUsage <= info.maxMemUsage
}

/// What may happen to what is known of a process.
pub enum ProcessStep {
    Line {
        line: Seq<char>,
        version: Option<Seq<Option<Seq<char>>>>,
        progress: Option<Seq<Option<Seq<char>>>>,
        postProcessing: bool,
        now: TimeSpan,
    },
    Speed(Option<SampleSpeed>),
    Memory(Option<u64>),
    Timeout,
    Finish,
}

/// Whether a step leads from one state of knowledge to another.
pub open spec fn stepped(
    before: BlendProcessInfo,
    step: ProcessStep,
    after: BlendProcessInfo,
) -> bool {
    match step {
        ProcessStep::Line { line, version, progress, postProcessing, now } => observed(
            before,
            after,
            line,
            version,
            progress,
            postProcessing,
            now,
        ),
        ProcessStep::Speed(speed) => after == (BlendProcessInfo {
            speedSamplesRendered: match speed {
                Some(s) => Some(s),
                None => before.speedSamplesRendered,
            },
            ..before
        }),
        ProcessStep::Memory(used) => after == match used {
            Some(used) if before.status is Running => (BlendProcessInfo {
                memUsage: used,
                maxMemUsage: if used > before.maxMemUsage {
                    used
                } else {
                    before.maxMemUsage
                },
                ..before
            }),
            _ => before,
        },
        ProcessStep::Timeout => after == (BlendProcessInfo {
            status: if before.status is Running {
                ProcStatus::TookTooLong
            } else {
                before.status
            },
            ..before
        }),
        ProcessStep::Finish => after == (BlendProcessInfo {
            status: ProcStatus::ExitedOk,
            ..before
        }),
    }
}

/// Whether steps lead from one state of knowledge to another, through the states between.
pub open spec fn ran(states: Seq<BlendProcessInfo>, steps: Seq<ProcessStep>) -> bool {
    &&& states.len() == steps.len() + 1
    &&& forall|i: int|
        0 <= i < steps.len() ==> #[trigger] stepped(states[i], steps[i], states[i + 1])
}

/// Whatever happens, in whatever order: times that are known stay, the most memory used never
/// shrinks and covers what is used, and a process that is over is not taken for running again.
pub proof fn law_process_runs(states: Seq<BlendProcessInfo>, steps: Seq<ProcessStep>)
    requires
        ran(states, steps),
        memory_known(states[0]),
    ensures
        memory_known(states.last()),
        states[0].maxMemUsage <= states.last().maxMemUsage,
        states[0].prepStart is Some ==> states.last().prepStart == states[0].prepStart,
        states[0].renderStart is Some ==> states.last().renderStart == states[0].renderStart,
        states[0].compositStart is Some ==> states.last().compositStart == states[0].compositStart,
        states[0].blenderVersion is Some ==> states.last().blenderVersion
            == states[0].blenderVersion,
        !(states[0].status is Running) ==> !(states.last().status is Running),
    decreases steps.len(),
{
    if steps.len() > 0 {
        let n = steps.len() - 1;
        assert forall|i: int| 0 <= i < n implies #[trigger] stepped(
            states.drop_last()[i],
            steps.drop_last()[i],
            states.drop_last()[i + 1],
        ) by {
            assert(stepped(states[i], steps[i], states[i + 1]));
        }
        law_process_runs(states.drop_last(), steps.drop_last());
        assert(stepped(states[n], steps[n], states[n + 1]));
    }
}

// What watching and choosing are for

/// The renderer is stopped two seconds after the time that a frame may take, and never before that
/// time; where any time will do it is not stopped.
pub proof fn law_kill_delay(limit: nat)
    requires
        limit <= SPAN_MAX,
    ensures
        kill_delay(None) is None,
        kill_delay(Some(limit)) matches Some(delay) && limit <= delay <= SPAN_MAX,
        limit + 2000000000 <= SPAN_MAX ==> kill_delay(Some(limit)) == Some(
            (limit + 2000000000) as nat,
        ),
{
}

/// A process whose time is up is marked so exactly if it still runs, and nothing else of it changes.
pub proof fn law_timeout(before: BlendProcessInfo, after: BlendProcessInfo)
    requires
        stepped(before, ProcessStep::Timeout, after),
    ensures
        still_runs(before) <==> before.status is Running,
        still_runs(before) ==> after.status is TookTooLong,
        !still_runs(before) ==> after == before,
        after == (BlendProcessInfo { status: after.status, ..before }),
{
}

/// The memory that a running process uses is the one that was last seen, and the most that it used is
/// the most that was seen. Of a process that does not run, nothing is learned, nor without a number.
pub proof fn law_memory_seen(before: BlendProcessInfo, used: Option<u64>, after: BlendProcessInfo)
    requires
        stepped(before, ProcessStep::Memory(used), after),
    ensures
        used matches Some(n) && before.status is Running ==> {
            &&& after.memUsage == used->0
            &&& after.maxMemUsage >= before.maxMemUsage
            &&& after.maxMemUsage >= used->0
            &&& after.maxMemUsage == before.maxMemUsage || after.maxMemUsage == used->0
        },
        used is None || !(before.status is Running) ==> after == before,
        after == (BlendProcessInfo {
            memUsage: after.memUsage,
            maxMemUsage: after.maxMemUsage,
            ..before
        }),
{
}

/// The process is looked at again until it has ended; it is done with exactly if it ended well, and
/// a bad end or a failed look is an error.
pub proof fn law_polling(event: PollEvent, step: PollStep)
    requires
        polled(event, step),
    ensures
        step is Again <==> event is Busy || event is Alive,
        step is Finished <==> (event matches PollEvent::Exited(success) && success),
        step is Error <==> (event matches PollEvent::Exited(success) && !success)
            || event is Failed,
        event matches PollEvent::Exited(success) && !success ==> (step matches PollStep::Error(e)
            && e is RendererCrashed),
{
}

/// The first file is the one whose name starts in the given way, with none before it that does.
pub proof fn law_first_of_names(names: Seq<Seq<char>>, prefix: Seq<char>, i: int)
    requires
        0 <= i < names.len(),
        prefix.is_prefix_of(names[i]),
        forall|j: int| 0 <= j < i ==> !prefix.is_prefix_of(#[trigger] names[j]),
    ensures
        first_with(names, prefix) == Some(names[i]),
    decreases names.len(),
{
    if i > 0 {
        let rest = names.skip(1);
        assert(!prefix.is_prefix_of(names[0]));
        assert forall|j: int| 0 <= j < i - 1 implies !prefix.is_prefix_of(#[trigger] rest[j]) by {
            assert(rest[j] == names[j + 1]);
        }
        law_first_of_names(rest, prefix, i - 1);
    }
}

/// The names of a job's output files start with its own name and the number of the frame, with a
/// stroke between and a dot behind.
pub proof fn law_output_prefix(job: Job)
    ensures
        job.info.id@.is_prefix_of(output_prefix(job)),
        output_prefix(job).len() == job.info.id@.len() + 1 + job.info.frameNumber@.len() + 1,
        output_prefix(job)[job.info.id@.len() as int] == '_',
        output_prefix(job).subrange(
            job.info.id@.len() as int + 1,
            job.info.id@.len() as int + 1 + job.info.frameNumber@.len() as int,
        ) == job.info.frameNumber@,
        output_prefix(job).last() == '.',
{
    reveal_strlit("_");
    reveal_strlit(".");
    assert(job.info.id@ == output_prefix(job).take(job.info.id@.len() as int));
    assert(output_prefix(job).subrange(
        job.info.id@.len() as int + 1,
        job.info.id@.len() as int + 1 + job.info.frameNumber@.len() as int,
    ) == job.info.frameNumber@);
}

/// One output file is the frame. Of two, both are kept, as the frame and its preview; the frame is an
/// `exr` file only if both are. None, or more than two, are no frame.
pub proof fn law_outputs_chosen(files: Seq<Seq<Seq<char>>>, choice: OutputChoice)
    requires
        outputs_chosen(files, choice),
    ensures
        choice is Files <==> files.len() == 1 || files.len() == 2,
        choice is Missing <==> files.len() == 0,
        files.len() == 1 ==> (choice matches OutputChoice::Files(output, preview) && output@
            == files[0] && preview is None),
        files.len() == 2 ==> (choice matches OutputChoice::Files(output, preview) && (
        preview matches Some(other) && (files == seq![output@, other@] || files == seq![
            other@,
            output@,
        ]) && (path_extension(output@) == Some("exr"@) ==> path_extension(other@) == Some("exr"@)))),
{
    if files.len() == 2 {
        let output = choice->Files_0@;
        let other = choice->Files_1->0@;
        if path_extension(files[0]) == Some("exr"@) {
            assert(files == seq![other, output]);
        } else {
            assert(files == seq![output, other]);
        }
    }
}

/// There is a frame exactly if both the start and the end of rendering were seen. It took the time
/// between the two, used the most memory that was seen, and goes to the job's address.
pub proof fn law_frame_made(
    job: Job,
    info: BlendProcessInfo,
    output: Seq<Seq<char>>,
    preview: Option<Seq<Seq<char>>>,
    result: Result<RenderResult, RenderError>,
)
    requires
        is_result(job, info, output, preview, result),
    ensures
        result is Ok <==> info.renderStart is Some && info.compositStart is Some,
        result matches Ok(frame) ==> {
            &&& frame.output@ == output
            &&& path_view(frame.outputPreview) == preview
            &&& frame.validationUrl@ == job.info.validationUrl@
            &&& frame.memoryUsed == info.maxMemUsage
            &&& frame.speedSamplesRendered == info.speedSamplesRendered
            &&& info.compositStart->0@ >= info.renderStart->0@ ==> info.renderStart->0@
                + frame.renderTime@ == info.compositStart->0@
            &&& info.compositStart->0@ < info.renderStart->0@ ==> frame.renderTime@ == 0
        },
        info.compositStart is None ==> refused_with(result, "No composit start encountered"@),
        info.compositStart is Some && info.renderStart is None ==> refused_with(
            result,
            "No render start encountered"@,
        ),
{
}

/// The frame of a job is the first of its output files in the working directory; without one there is
/// none.
pub proof fn law_frame_found(
    job: Job,
    conf: ClientConfig,
    info: BlendProcessInfo,
    names: Vec<String>,
    result: Result<RenderResult, RenderError>,
    i: int,
)
    requires
        finished(job, conf, info, Ok(names), result),
        info.renderStart is Some,
        info.compositStart is Some,
        0 <= i <= names@.len(),
        forall|j: int| 0 <= j < i ==> !output_prefix(job).is_prefix_of(#[trigger] names@[j]@),
        i < names@.len() ==> output_prefix(job).is_prefix_of(names@[i]@),
    ensures
        i < names@.len() ==> (result matches Ok(frame) && frame.output@ == seq![
            conf.workPath@,
            names@[i]@,
        ] && frame.outputPreview is None),
        i == names@.len() ==> (result matches Err(e) && e is NoOutputFile),
{
    let texts = views(names@);
    assert forall|j: int| 0 <= j < i implies !output_prefix(job).is_prefix_of(
        #[trigger] texts[j],
    ) by {
        assert(texts[j] == names@[j]@);
    }
    if i < names@.len() {
        assert(texts[i] == names@[i]@);
        law_first_of_names(texts, output_prefix(job), i);
    } else {
        law_first_with(texts, output_prefix(job));
        if let Some(name) = first_with(texts, output_prefix(job)) {
            let k = choose|k: int| 0 <= k < texts.len() && texts[k] == name;
            assert(!output_prefix(job).is_prefix_of(texts[k]));
        }
    }
}

/// A render goes on as long as all goes well: the scripts are written, the process starts, it ends
/// well, and the files are looked through. What fails before the scripts are there ends it at once;
/// what fails later ends it when they are deleted, and what it came to stays what it is.
pub proof fn law_render_goes_on(
    job: Job,
    conf: ClientConfig,
    before: RenderStage,
    infoBefore: BlendProcessInfo,
    event: RenderEvent,
    after: RenderStage,
    info: BlendProcessInfo,
)
    requires
        settles(before, event),
        render_led(job, conf, before, infoBefore, event, after, info),
    ensures
        before is Commanding ==> (after is Starting <==> (event matches RenderEvent::Commanded(r)
            && r is Ok)) && (after is Starting || after is Over),
        before is Starting ==> (after is Polling <==> (event matches RenderEvent::Started(s)
            && s is Started)) && (after is Polling || after is DeletingScripts),
        before is Polling ==> {
            &&& after is Listing <==> is_good_end(event)
            &&& after is Polling <==> (event matches RenderEvent::Polled(seen) && (seen is Busy
                || seen is Alive))
            &&& after is Listing || after is Polling || after is DeletingScripts
        },
        before is Listing ==> after is DeletingScripts,
        before matches RenderStage::DeletingScripts(result) ==> after == RenderStage::Over(result),
        is_good_end(event) ==> info.status is ExitedOk,
        !is_good_end(event) ==> info == infoBefore,
        after is DeletingScripts && !(before is Listing) ==> after->DeletingScripts_0 is Err,
{
}

} // verus!
