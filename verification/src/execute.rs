//! Doing a job: from its files to its frame.

use vstd::prelude::*;

use crate::conf::{
    ClientConfig, chunk_path, renderer_archive_path, renderer_path, scene_path,
};
use crate::job::{Chunk, Job};
use crate::paths::{PathPieces, path_views};
use crate::utils::{Platform, because, blend_exe, messageBecause};

verus! {

/// What the client is about, when it does a job.
#[derive(Debug)]
pub enum JobStage {
    Downloading,
    Preparing,
    Rendering,
    /// Sending the frame to the server.
    Uploading,
    /// Handing the frame to the uploader.
    Queueing,
    /// Deleting the scene's folder; how the job went is settled.
    DeletingScene(Result<(), String>),
    Over(Result<(), String>),
}

/// What ends a stage of a job.
#[derive(Debug)]
pub enum JobEvent {
    Downloaded(Result<(), String>),
    Prepared(Result<(), String>),
    /// Whether there is a frame.
    Rendered(bool),
    /// The frame was sent or handed over.
    Delivered(Result<(), String>),
    /// The deletion was tried.
    SceneDeleted,
}

/// Whether an event is one that ends a stage.
pub open spec fn finishes(stage: JobStage, event: JobEvent) -> bool {
    match stage {
        JobStage::Downloading => event is Downloaded,
        JobStage::Preparing => event is Prepared,
        JobStage::Rendering => event is Rendered,
        JobStage::Uploading | JobStage::Queueing => event is Delivered,
        JobStage::DeletingScene(_) => event is SceneDeleted,
        JobStage::Over(_) => false,
    }
}

/// The stage that an event leads to. A job whose frame could not be rendered is done all the
/// same; the scene's folder is deleted once there is one.
pub open spec fn next_stage(job: Job, stage: JobStage, event: JobEvent) -> JobStage {
    match event {
        JobEvent::Downloaded(Ok(_)) => JobStage::Preparing,
        JobEvent::Downloaded(Err(e)) => JobStage::Over(Err(e)),
        JobEvent::Prepared(Ok(_)) => JobStage::Rendering,
        JobEvent::Prepared(Err(e)) => JobStage::Over(Err(e)),
        JobEvent::Rendered(frame) => if !frame {
            JobStage::DeletingScene(Ok(()))
        } else if job.info.synchronousUpload {
            JobStage::Uploading
        } else {
            JobStage::Queueing
        },
        JobEvent::Delivered(result) => JobStage::DeletingScene(result),
        JobEvent::SceneDeleted => match stage {
            JobStage::DeletingScene(result) => JobStage::Over(result),
            other => other,
        },
    }
}

/// Goes on to the next stage of a job.
pub fn execute_job(job: &Job, stage: JobStage, event: JobEvent) -> (r: JobStage)
    requires
        finishes(stage, event),
    ensures
        r == next_stage(*job, stage, event),
{
    match event {
        JobEvent::Downloaded(Ok(_)) => JobStage::Preparing,
        JobEvent::Downloaded(Err(e)) => JobStage::Over(Err(e)),
        JobEvent::Prepared(Ok(_)) => JobStage::Rendering,
        JobEvent::Prepared(Err(e)) => JobStage::Over(Err(e)),
        JobEvent::Rendered(frame) => if !frame {
            JobStage::DeletingScene(Ok(()))
        } else if job.info.synchronousUpload {
            JobStage::Uploading
        } else {
            JobStage::Queueing
        },
        JobEvent::Delivered(result) => JobStage::DeletingScene(result),
        JobEvent::SceneDeleted => match stage {
            JobStage::DeletingScene(result) => JobStage::Over(result),
            other => other,
        },
    }
}

/// Whether events lead through the stages of a job, from its first.
pub open spec fn worked(job: Job, stages: Seq<JobStage>, events: Seq<JobEvent>) -> bool {
    &&& stages.len() == events.len() + 1
    &&& stages[0] is Downloading
    &&& forall|i: int|
        0 <= i < events.len() ==> finishes(#[trigger] stages[i], events[i]) && stages[i + 1]
            == next_stage(job, stages[i], events[i])
}

/// How far a job is: its stages come in this order.
pub open spec fn stage_order(stage: JobStage) -> nat {
    match stage {
        JobStage::Downloading => 0,
        JobStage::Preparing => 1,
        JobStage::Rendering => 2,
        JobStage::Uploading | JobStage::Queueing => 3,
        JobStage::DeletingScene(_) => 4,
        JobStage::Over(_) => 5,
    }
}

/// A job never goes back, so it comes to its end after at most five stages.
pub proof fn law_job_ends(job: Job, stages: Seq<JobStage>, events: Seq<JobEvent>)
    requires
        worked(job, stages, events),
    ensures
        events.len() <= stage_order(stages.last()) <= 5,
    decreases events.len(),
{
    if events.len() > 0 {
        lemma_worked_before(job, stages, events);
        law_job_ends(job, stages.drop_last(), events.drop_last());
        assert(finishes(stages[events.len() - 1], events[events.len() - 1]));
    }
}

proof fn lemma_worked_before(job: Job, stages: Seq<JobStage>, events: Seq<JobEvent>)
    requires
        worked(job, stages, events),
        events.len() > 0,
    ensures
        worked(job, stages.drop_last(), events.drop_last()),
{
    let s = stages.drop_last();
    let e = events.drop_last();
    assert forall|i: int| 0 <= i < e.len() implies finishes(#[trigger] s[i], e[i]) && s[i + 1]
        == next_stage(job, s[i], e[i]) by {
        assert(finishes(stages[i], events[i]));
    }
}

/// Whether an event tells that the files are prepared.
pub open spec fn is_prepared(event: JobEvent) -> bool {
    event is Prepared && event->Prepared_0 is Ok
}

/// Whether the files were prepared at some point.
pub open spec fn was_prepared(events: Seq<JobEvent>) -> bool {
    exists|i: int| 0 <= i < events.len() && #[trigger] is_prepared(events[i])
}

/// A job that is over had its scene's folder deleted, right before, if and only if its files were
/// prepared.
pub proof fn law_scene_deleted(job: Job, stages: Seq<JobStage>, events: Seq<JobEvent>)
    requires
        worked(job, stages, events),
        stages.last() is Over,
    ensures
        events.len() > 0,
        (stages[stages.len() - 2] is DeletingScene) <==> was_prepared(events),
{
    let n = events.len() - 1;
    assert(finishes(stages[n], events[n]));
    lemma_worked_before(job, stages, events);
    lemma_prepared(job, stages.drop_last(), events.drop_last());
    lemma_prepared_before(events);
}

proof fn lemma_prepared_before(events: Seq<JobEvent>)
    requires
        events.len() > 0,
    ensures
        was_prepared(events) <==> was_prepared(events.drop_last()) || is_prepared(events.last()),
{
    let before = events.drop_last();
    if was_prepared(before) {
        let i = choose|i: int| 0 <= i < before.len() && #[trigger] is_prepared(before[i]);
        assert(is_prepared(events[i]));
    }
    if was_prepared(events) {
        let i = choose|i: int| 0 <= i < events.len() && #[trigger] is_prepared(events[i]);
        if i < before.len() {
            assert(is_prepared(before[i]));
        }
    }
}

/// Whether the files were prepared shows in the stage.
proof fn lemma_prepared(job: Job, stages: Seq<JobStage>, events: Seq<JobEvent>)
    requires
        worked(job, stages, events),
    ensures
        match stages.last() {
            JobStage::Downloading | JobStage::Preparing => !was_prepared(events),
            JobStage::Over(_) => true,
            _ => was_prepared(events),
        },
    decreases events.len(),
{
    if events.len() > 0 {
        let n = events.len() - 1;
        lemma_worked_before(job, stages, events);
        lemma_prepared(job, stages.drop_last(), events.drop_last());
        lemma_prepared_before(events);
        assert(finishes(stages[n], events[n]));
    }
}

// The working directory

/// What a job needs in the working directory, and where it comes from.
#[derive(Debug)]
pub struct PreparePlan {
    pub rendererArchive: PathPieces,
    pub rendererFolder: PathPieces,
    /// A file that is there when the renderer's archive was unpacked.
    pub rendererMark: PathPieces,
    pub sceneFolder: PathPieces,
    /// The parts of the scene's archive, in order.
    pub chunks: Vec<PathPieces>,
}

/// Where the parts of a scene's archive lie, in order.
pub open spec fn chunk_paths(chunks: Seq<Chunk>, conf: ClientConfig) -> Seq<Seq<Seq<char>>> {
    chunks.map_values(|c: Chunk| seq![conf.workPath@, c.id@ + ".wool"@])
}

/// Whether a plan is what a job needs in the working directory.
pub open spec fn is_plan(conf: ClientConfig, job: Job, plan: PreparePlan) -> bool {
    &&& plan.rendererArchive@ == seq![conf.binCachePath@, job.info.rendererInfo.md5@ + ".zip"@]
    &&& plan.rendererFolder@ == seq![conf.workPath@, job.info.rendererInfo.md5@]
    &&& plan.rendererMark@ == seq![conf.workPath@, job.info.rendererInfo.md5@, "rend.exe"@]
    &&& plan.sceneFolder@ == seq![conf.workPath@, job.info.id@]
    &&& path_views(plan.chunks@) == chunk_paths(job.info.archiveChunks@, conf)
}

/// What a job needs in the working directory.
pub fn prepareWorkingDirectory(conf: &ClientConfig, job: &Job) -> (r: PreparePlan)
    ensures
        is_plan(*conf, *job, r),
{
    let list = &job.info.archiveChunks;
    let mut chunks: Vec<PathPieces> = Vec::new();
    let mut i: usize = 0;
    while i < list.len()
        invariant
            list == &job.info.archiveChunks,
            i <= list@.len(),
            path_views(chunks@) == chunk_paths(list@, *conf).take(i as int),
        decreases list@.len() - i,
    {
        let ghost before = path_views(chunks@);
        let path = conf.chunkPath(&list[i]);
        let ghost made = path@;
        chunks.push(path);
        assert(path_views(chunks@) == before.push(made));
        assert(chunk_paths(list@, *conf).take(i as int + 1) == before.push(
            chunk_paths(list@, *conf)[i as int],
        ));
        i += 1;
    }
    assert(chunk_paths(list@, *conf).take(list@.len() as int) == chunk_paths(list@, *conf));
    let rendererMark = conf.rendererPath(&job.info).join("rend.exe");
    assert(rendererMark@ == seq![conf.workPath@, job.info.rendererInfo.md5@, "rend.exe"@]);
    PreparePlan {
        rendererArchive: conf.rendererArchivePath(&job.info),
        rendererFolder: conf.rendererPath(&job.info),
        rendererMark,
        sceneFolder: conf.scenePath(&job.info),
        chunks,
    }
}

/// Whether the renderer's archive is to be unpacked: unless the mark is known to be there.
pub open spec fn must_unpack(markThere: Result<bool, String>) -> bool {
    !(markThere == Ok::<bool, String>(true))
}

/// Whether the renderer's archive is to be unpacked: unless the mark is known to be there.
pub fn unpackRenderer(markThere: &Result<bool, String>) -> (r: bool)
    ensures
        r == must_unpack(*markThere),
{
    match markThere {
        Ok(there) => !*there,
        Err(_) => true,
    }
}

/// Whether a result says how something went, with what failed where it failed.
pub open spec fn told_as(
    result: Result<(), String>,
    told: Result<(), String>,
    what: Seq<char>,
) -> bool {
    match (result, told) {
        (Ok(_), Ok(_)) => true,
        (Err(cause), Err(e)) => e@ == because(what, cause@),
        _ => false,
    }
}

/// How unpacking the renderer went, for the user.
pub fn rendererUnpacked(result: Result<(), String>) -> (r: Result<(), String>)
    ensures
        told_as(result, r, "Failed to unzip renderer"@),
{
    match result {
        Ok(_) => Ok(()),
        Err(e) => Err(messageBecause("Failed to unzip renderer", e.as_str())),
    }
}

/// How unpacking the scene went, for the user.
pub fn sceneUnpacked(result: Result<(), String>) -> (r: Result<(), String>)
    ensures
        told_as(result, r, "Failed to unzip scene"@),
{
    match result {
        Ok(_) => Ok(()),
        Err(e) => Err(messageBecause("Failed to unzip scene", e.as_str())),
    }
}

/// The sum of some sizes.
pub open spec fn total(sizes: Seq<u64>) -> nat
    decreases sizes.len(),
{
    if sizes.len() == 0 {
        0
    } else {
        total(sizes.drop_last()) + sizes.last() as nat
    }
}

/// How large the scene's archive is, from the sizes of its parts, if the number fits.
pub fn archiveSize(sizes: &Vec<u64>) -> (r: Option<u64>)
    ensures
        match r {
            Some(size) => size == total(sizes@),
            None => total(sizes@) > u64::MAX,
        },
{
    let mut size: u64 = 0;
    let mut i: usize = 0;
    while i < sizes.len()
        invariant
            i <= sizes@.len(),
            size == total(sizes@.take(i as int)),
        decreases sizes@.len() - i,
    {
        assert(sizes@.take(i as int + 1).drop_last() == sizes@.take(i as int));
        match size.checked_add(sizes[i]) {
            Some(sum) => {
                size = sum;
            },
            None => {
                proof {
                    lemma_total_grows(sizes@, i as int + 1);
                }
                return None;
            },
        }
        i += 1;
    }
    assert(sizes@.take(sizes@.len() as int) == sizes@);
    Some(size)
}

proof fn lemma_total_grows(sizes: Seq<u64>, i: int)
    requires
        0 <= i <= sizes.len(),
    ensures
        total(sizes.take(i)) <= total(sizes),
    decreases sizes.len(),
{
    if i < sizes.len() {
        lemma_total_grows(sizes.drop_last(), i);
        assert(sizes.drop_last().take(i) == sizes.take(i));
    } else {
        assert(sizes.take(i) == sizes);
    }
}

// What doing a job is for

/// The failure that an event tells of, if it does.
pub open spec fn failure_in(event: JobEvent) -> Option<String> {
    match event {
        JobEvent::Downloaded(Err(e)) => Some(e),
        JobEvent::Prepared(Err(e)) => Some(e),
        JobEvent::Delivered(Err(e)) => Some(e),
        _ => None,
    }
}

/// Whether an event tells of a failure.
pub open spec fn is_failure(event: JobEvent) -> bool {
    failure_in(event) is Some
}

/// Whether an event is the given failure.
pub open spec fn fails_as(event: JobEvent, e: String) -> bool {
    failure_in(event) == Some(e)
}

/// A job that is over went well exactly if nothing on its way failed: neither the download, nor the
/// preparation, nor the delivery. If something did, the job failed for that reason. That there was no
/// frame is no failure.
pub proof fn law_job_result(job: Job, stages: Seq<JobStage>, events: Seq<JobEvent>)
    requires
        worked(job, stages, events),
        stages.last() is Over,
    ensures
        match stages.last()->Over_0 {
            Ok(_) => forall|i: int| 0 <= i < events.len() ==> !is_failure(#[trigger] events[i]),
            Err(e) => exists|i: int| 0 <= i < events.len() && fails_as(#[trigger] events[i], e),
        },
{
    lemma_job_result(job, stages, events);
}

proof fn lemma_job_result(job: Job, stages: Seq<JobStage>, events: Seq<JobEvent>)
    requires
        worked(job, stages, events),
    ensures
        match stages.last() {
            JobStage::DeletingScene(Err(e)) | JobStage::Over(Err(e)) => exists|i: int|
                0 <= i < events.len() && fails_as(#[trigger] events[i], e),
            _ => forall|i: int| 0 <= i < events.len() ==> !is_failure(#[trigger] events[i]),
        },
    decreases events.len(),
{
    if events.len() > 0 {
        let n = events.len() - 1;
        let s = stages.drop_last();
        let e = events.drop_last();
        lemma_worked_before(job, stages, events);
        lemma_job_result(job, s, e);
        assert(finishes(stages[n], events[n]));
        assert(s.last() == stages[n]);
        assert forall|i: int| 0 <= i < n implies e[i] == #[trigger] events[i] by {}
        match stages.last() {
            JobStage::DeletingScene(Err(m)) | JobStage::Over(Err(m)) => {
                if fails_as(events[n], m) {
                } else {
                    let i = choose|i: int| 0 <= i < e.len() && fails_as(#[trigger] e[i], m);
                    assert(fails_as(events[i], m));
                }
            },
            _ => {
                assert forall|i: int| 0 <= i < events.len() implies !is_failure(
                    #[trigger] events[i],
                ) by {
                    if i < n {
                        assert(!is_failure(e[i]));
                    }
                }
            },
        }
    }
}

/// The stages of a job that goes well: it is downloaded, prepared and rendered. A frame is sent at
/// once exactly if the server wants that, and else handed to the uploader; without a frame there is
/// nothing to deliver.
pub proof fn law_job_goes_on(job: Job, stage: JobStage, event: JobEvent)
    requires
        finishes(stage, event),
    ensures
        stage is Downloading && !is_failure(event) ==> next_stage(job, stage, event) is Preparing,
        stage is Preparing && !is_failure(event) ==> next_stage(job, stage, event) is Rendering,
        event matches JobEvent::Rendered(frame) ==> {
            let next = next_stage(job, stage, event);
            &&& next is Uploading <==> event->Rendered_0 && job.info.synchronousUpload
            &&& next is Queueing <==> event->Rendered_0 && !job.info.synchronousUpload
            &&& next is DeletingScene <==> !event->Rendered_0
        },
        stage is Uploading || stage is Queueing ==> next_stage(job, stage, event) is DeletingScene,
        stage is DeletingScene ==> next_stage(job, stage, event) is Over,
        (stage is Downloading || stage is Preparing) && is_failure(event) ==> next_stage(
            job,
            stage,
            event,
        ) is Over,
{
}

/// What a job needs is where it was downloaded to: the archive with its renderer, and each part of
/// the scene's archive, all of them in order. The renderer and the scene are unpacked to their own
/// folders, and the mark lies in the renderer's.
pub proof fn law_plan(conf: ClientConfig, job: Job, plan: PreparePlan)
    requires
        is_plan(conf, job, plan),
    ensures
        plan.rendererArchive@ == renderer_archive_path(conf, job.info),
        plan.rendererFolder@ == renderer_path(conf, job.info),
        plan.rendererMark@ == renderer_path(conf, job.info).push("rend.exe"@),
        plan.sceneFolder@ == scene_path(conf, job.info),
        plan.chunks@.len() == job.info.archiveChunks@.len(),
        forall|i: int|
            0 <= i < plan.chunks@.len() ==> (#[trigger] plan.chunks@[i])@ == chunk_path(
                conf,
                job.info.archiveChunks@[i],
            ),
{
    assert(plan.rendererMark@ == renderer_path(conf, job.info).push("rend.exe"@));
    assert(path_views(plan.chunks@).len() == plan.chunks@.len());
    assert forall|i: int| 0 <= i < plan.chunks@.len() implies (#[trigger] plan.chunks@[i])@
        == chunk_path(conf, job.info.archiveChunks@[i]) by {
        assert(path_views(plan.chunks@)[i] == plan.chunks@[i]@);
    }
}

/// The mark is the renderer's own program, but on a Mac.
pub proof fn law_mark_is_program(conf: ClientConfig, job: Job, plan: PreparePlan, on: Platform)
    requires
        is_plan(conf, job, plan),
        !(on is Macos),
    ensures
        plan.rendererMark@ == renderer_path(conf, job.info).push(blend_exe(on)),
{
    assert(plan.rendererMark@ == renderer_path(conf, job.info).push("rend.exe"@));
}

/// The renderer's archive is left alone only where the mark is known to be there.
pub proof fn law_must_unpack(markThere: Result<bool, String>)
    ensures
        must_unpack(markThere) <==> markThere is Err || !markThere->Ok_0,
{
}

/// Something that went well is said to have, and a failure is said with what failed and its cause.
pub proof fn law_told_as(result: Result<(), String>, told: Result<(), String>, what: Seq<char>)
    requires
        told_as(result, told, what),
    ensures
        result is Ok <==> told is Ok,
        result matches Err(cause) ==> what.is_prefix_of(told->Err_0@) && (exists|head: Seq<char>|
            told->Err_0@ == #[trigger] (head + cause@)),
{
    if let Err(cause) = result {
        let message = told->Err_0@;
        assert(message == (what + " because: "@) + cause@);
        assert(what == message.take(what.len() as int));
    }
}

/// The size of an archive is that of its parts together, in any grouping.
pub proof fn law_total(first: Seq<u64>, second: Seq<u64>, one: u64)
    ensures
        total(Seq::empty()) == 0,
        total(seq![one]) == one,
        total(first + second) == total(first) + total(second),
    decreases second.len(),
{
    reveal_with_fuel(total, 2);
    assert(seq![one].drop_last() == Seq::<u64>::empty());
    if second.len() > 0 {
        law_total(first, second.drop_last(), one);
        assert((first + second).drop_last() == first + second.drop_last());
    } else {
        assert(first + second == first);
    }
}

} // verus!
