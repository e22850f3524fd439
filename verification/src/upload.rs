//! Sending a frame to the server.

use vstd::prelude::*;

use crate::net::str_view;
use crate::number::{decimal, decimalSigned, digits, signed_digits};
use crate::outside::{parseUrl, parsed_url};
use crate::paths::{PathPieces, fileName, file_name_of, path_views};
use crate::render::{RenderResult, pathExtension, path_extension};
use crate::span::SECOND;
use crate::text::{glue, glue3, pair_views, pushPair};
use crate::utils::{because, messageBecause};

verus! {

/// A frame on its way to the server: its address, the parameters that go with it, and how the
/// file is announced.
#[derive(Debug)]
pub struct UploadRequest {
    pub url: String,
    pub query: Vec<(String, String)>,
    pub partName: String,
    pub mime: String,
    pub fileName: String,
}

/// The parameters that go with a frame.
pub open spec fn upload_query(frame: RenderResult, speedSamples: Option<Seq<char>>) -> Seq<
    (Seq<char>, Seq<char>),
> {
    let both = seq![
        ("rendertime"@, digits(frame.renderTime@ / SECOND as nat)),
        ("memoryused"@, digits(frame.memoryUsed as nat)),
    ];
    match speedSamples {
        Some(speed) => both.push(("speedsamples"@, speed)),
        None => both,
    }
}

/// Whether a request announces a frame at the given address.
pub open spec fn is_upload(
    request: UploadRequest,
    frame: RenderResult,
    speedSamples: Option<Seq<char>>,
    url: Seq<char>,
) -> bool {
    &&& request.url@ == url
    &&& pair_views(request.query@) == upload_query(frame, speedSamples)
    &&& request.partName@ == "file"@
    &&& request.mime@ == "image/"@ + path_extension(frame.output@).unwrap_or("png"@)
    &&& request.fileName@ == file_name_of(frame.output@).unwrap_or(""@)
}

/// The request that announces a frame at the given address.
pub fn uploadTo(url: String, frame: &RenderResult, speedSamples: Option<&str>) -> (r: UploadRequest)
    ensures
        is_upload(r, *frame, str_view(speedSamples), url@),
{
    let mut query: Vec<(String, String)> = Vec::new();
    pushPair(&mut query, "rendertime", decimal(frame.renderTime.asSecs()).as_str());
    pushPair(&mut query, "memoryused", decimal(frame.memoryUsed).as_str());
    if let Some(speed) = speedSamples {
        pushPair(&mut query, "speedsamples", speed);
    }
    assert(pair_views(query@) == upload_query(*frame, str_view(speedSamples)));
    let ext = match pathExtension(&frame.output) {
        Some(ext) => ext,
        None => "png".to_owned(),
    };
    let name = match fileName(&frame.output) {
        Some(name) => name,
        None => "".to_owned(),
    };
    UploadRequest {
        url,
        query,
        partName: "file".to_owned(),
        mime: glue("image/", ext.as_str()),
        fileName: name,
    }
}

/// The request that sends a frame to the address that it belongs to. `speedSamples` is the text
/// of the renderer's speed, where it is above zero.
pub fn uploadRequest(frame: &RenderResult, speedSamples: Option<&str>) -> (r: Result<
    UploadRequest,
    String,
>)
    ensures
        match (parsed_url(frame.validationUrl@), r) {
            (Ok(url), Ok(request)) => is_upload(request, *frame, str_view(speedSamples), url),
            (Err(cause), Err(e)) => e@ == cause,
            _ => false,
        },
{
    match parseUrl(frame.validationUrl.as_str()) {
        Ok(url) => Ok(uploadTo(url, frame, speedSamples)),
        Err(e) => Err(e),
    }
}

/// Whether a result is what the server's verdict on a frame comes to.
pub open spec fn is_verdict(status: i32, result: Result<(), String>) -> bool {
    match result {
        Ok(_) => status == 0,
        Err(e) => status != 0 && e@ == "Got back validation code "@ + signed_digits(status as int),
    }
}

/// What the server's verdict on a frame comes to.
pub fn validationOutcome(status: i32) -> (r: Result<(), String>)
    ensures
        is_verdict(status, r),
{
    if status != 0 {
        Err(glue("Got back validation code ", decimalSigned(status).as_str()))
    } else {
        Ok(())
    }
}

// Trying again

/// How often a frame is sent before the client gives up on it.
pub const MAX_UPLOADS: u32 = 3;

/// How the sending of a frame stands.
#[derive(Debug, Clone, Copy, PartialEq, Eq, Structural)]
pub struct UploadRetry {
    /// The attempt that is under way.
    pub attempt: u32,
    /// The seconds before the next one.
    pub wait: u64,
}

/// The seconds that follow an attempt: each time twice as many.
pub open spec fn wait_after(attempt: nat) -> nat
    decreases attempt,
{
    if attempt <= 1 {
        22
    } else {
        2 * wait_after((attempt - 1) as nat)
    }
}

/// What is always true of the sending of a frame.
pub open spec fn retry_ok(retry: UploadRetry) -> bool {
    1 <= retry.attempt <= MAX_UPLOADS && retry.wait == wait_after(retry.attempt as nat)
}

/// The files of a frame: what was rendered, and the preview if there is one.
pub open spec fn frame_files(frame: RenderResult) -> Seq<Seq<Seq<char>>> {
    match frame.outputPreview {
        Some(preview) => seq![frame.output@, preview@],
        None => seq![frame.output@],
    }
}

/// The files of a frame, which are removed when it was sent or given up on.
pub fn frameFiles(frame: &RenderResult) -> (r: Vec<PathPieces>)
    ensures
        path_views(r@) == frame_files(*frame),
{
    let mut files: Vec<PathPieces> = Vec::new();
    files.push(frame.output.clone());
    if let Some(preview) = &frame.outputPreview {
        files.push(preview.clone());
    }
    assert(path_views(files@) == frame_files(*frame));
    files
}

/// What follows an attempt to send a frame.
#[derive(Debug)]
pub enum UploadStep {
    /// It is over: the frame's files are removed.
    Over { result: Result<(), String>, remove: Vec<PathPieces> },
    /// Sleep for so many seconds, and send the frame again.
    Retry { secs: u64, failure: String, notice: String },
}

/// Whether a step is what follows an attempt to send a frame.
pub open spec fn upload_led(
    before: UploadRetry,
    frame: RenderResult,
    outcome: Result<(), String>,
    after: UploadRetry,
    step: UploadStep,
) -> bool {
    match step {
        UploadStep::Over { result, remove } => {
            &&& after == before
            &&& path_views(remove@) == frame_files(frame)
            &&& match result {
                Ok(_) => outcome is Ok,
                Err(e) => {
                    &&& outcome is Err
                    &&& before.attempt == MAX_UPLOADS
                    &&& e@ == because("Failed to upload frame"@, outcome->Err_0@)
                },
            }
        },
        UploadStep::Retry { secs, failure, notice } => {
            &&& outcome is Err
            &&& before.attempt < MAX_UPLOADS
            &&& after.attempt == before.attempt + 1
            &&& secs == before.wait
            &&& failure@ == because("Failed to upload frame"@, outcome->Err_0@) + " (attempt "@
                + digits(before.attempt as nat) + ")"@
            &&& notice@ == "Failed to upload frame. trying in "@ + digits(secs as nat)
                + " seconds"@
        },
    }
}

impl UploadRetry {
    /// Before the first attempt.
    pub fn first() -> (r: UploadRetry)
        ensures
            r.attempt == 1,
            retry_ok(r),
    {
        UploadRetry { attempt: 1, wait: 22 }
    }

    /// Takes in how an attempt to send `frame` went.
    pub fn after(&mut self, frame: &RenderResult, outcome: Result<(), String>) -> (r: UploadStep)
        requires
            retry_ok(*old(self)),
        ensures
            retry_ok(*final(self)),
            upload_led(*old(self), *frame, outcome, *final(self), r),
    {
        match outcome {
            Ok(_) => UploadStep::Over { result: Ok(()), remove: frameFiles(frame) },
            Err(e) => {
                let message = messageBecause("Failed to upload frame", e.as_str());
                if self.attempt == MAX_UPLOADS {
                    return UploadStep::Over { result: Err(message), remove: frameFiles(frame) };
                }
                let secs = self.wait;
                let mut failure = glue3(
                    message.as_str(),
                    " (attempt ",
                    decimal(self.attempt as u64).as_str(),
                );
                failure.append(")");
                let notice = glue3(
                    "Failed to upload frame. trying in ",
                    decimal(secs).as_str(),
                    " seconds",
                );
                proof {
                    reveal_with_fuel(wait_after, 4);
                }
                self.attempt = self.attempt + 1;
                self.wait = self.wait * 2;
                UploadStep::Retry { secs, failure, notice }
            },
        }
    }
}

/// How often a frame is sent when the attempts go as told, from the given attempt on.
pub open spec fn attempts_made(attempt: nat, outcomes: spec_fn(nat) -> bool) -> nat
    decreases MAX_UPLOADS - attempt,
{
    if outcomes(attempt) || attempt >= MAX_UPLOADS {
        1
    } else {
        1 + attempts_made(attempt + 1, outcomes)
    }
}

/// A frame is sent at most three times, less often only when an attempt goes well, and the client
/// sleeps 22 and then 44 seconds between.
pub proof fn law_uploads_bounded(outcomes: spec_fn(nat) -> bool)
    ensures
        1 <= attempts_made(1, outcomes) <= MAX_UPLOADS,
        attempts_made(1, outcomes) < MAX_UPLOADS ==> outcomes(attempts_made(1, outcomes)),
        wait_after(1) == 22,
        wait_after(2) == 44,
{
    reveal_with_fuel(attempts_made, 4);
    reveal_with_fuel(wait_after, 4);
}

// What sending a frame is for

/// A frame that was sent is done with, and so is one that was sent three times in vain; then all its
/// files are removed, and the reason is the last failure. Before that, a failed attempt is followed
/// by another, after 22 seconds and then 44.
pub proof fn law_attempt_taken(
    before: UploadRetry,
    frame: RenderResult,
    outcome: Result<(), String>,
    after: UploadRetry,
    step: UploadStep,
)
    requires
        retry_ok(before),
        retry_ok(after),
        upload_led(before, frame, outcome, after, step),
    ensures
        step is Over <==> outcome is Ok || before.attempt == 3,
        step matches UploadStep::Over { result, remove } ==> {
            &&& result is Ok <==> outcome is Ok
            &&& remove@.len() == if frame.outputPreview is Some {
                2nat
            } else {
                1nat
            }
            &&& remove@[0]@ == frame.output@
            &&& frame.outputPreview matches Some(preview) ==> remove@[1]@ == preview@
        },
        step matches UploadStep::Retry { secs, failure, notice } ==> {
            &&& after.attempt == before.attempt + 1
            &&& before.attempt == 1 ==> secs == 22
            &&& before.attempt == 2 ==> secs == 44
        },
        outcome matches Err(cause) && before.attempt == 3 ==> (
        step matches UploadStep::Over { result: Err(e), .. } && exists|head: Seq<char>|
            e@ == #[trigger] (head + outcome->Err_0@)),
{
    reveal_with_fuel(wait_after, 4);
    if let UploadStep::Over { result, remove } = step {
        let paths = path_views(remove@);
        assert(paths.len() == remove@.len());
        assert(paths[0] == remove@[0]@);
        if frame.outputPreview is Some {
            assert(paths[1] == remove@[1]@);
        }
        if let Err(cause) = outcome {
            assert(result->Err_0@ == ("Failed to upload frame"@ + " because: "@) + cause@);
        }
    }
}

/// Whether a frame is sent again and again, each time after the attempt before has failed.
pub open spec fn sent_again(
    retries: Seq<UploadRetry>,
    frame: RenderResult,
    outcomes: Seq<Result<(), String>>,
    steps: Seq<UploadStep>,
) -> bool {
    &&& outcomes.len() == steps.len()
    &&& retries.len() == steps.len() + 1
    &&& retries[0] == (UploadRetry { attempt: 1, wait: 22 })
    &&& forall|i: int|
        0 <= i < steps.len() ==> retry_ok(#[trigger] retries[i]) && upload_led(
            retries[i],
            frame,
            outcomes[i],
            retries[i + 1],
            steps[i],
        )
    &&& forall|i: int| 0 <= i < steps.len() - 1 ==> (#[trigger] steps[i]) is Retry
}

/// A frame is sent at most three times, and the frame's files are removed once, at the end. It was
/// sent well exactly if the last attempt went well, and fewer than three times only then.
pub proof fn law_frame_sent(
    retries: Seq<UploadRetry>,
    frame: RenderResult,
    outcomes: Seq<Result<(), String>>,
    steps: Seq<UploadStep>,
)
    requires
        sent_again(retries, frame, outcomes, steps),
        steps.len() > 0,
        steps.last() is Over,
    ensures
        steps.len() <= 3,
        forall|i: int| 0 <= i < steps.len() ==> ((#[trigger] steps[i]) is Over <==> i + 1
            == steps.len()),
        outcomes.last() is Ok <==> (steps.last() matches UploadStep::Over { result, .. }
            && result is Ok),
        steps.len() < 3 ==> outcomes.last() is Ok,
{
    let n = steps.len() - 1;
    lemma_attempts(retries, frame, outcomes, steps, n);
    assert(retry_ok(retries[n]));
}

proof fn lemma_attempts(
    retries: Seq<UploadRetry>,
    frame: RenderResult,
    outcomes: Seq<Result<(), String>>,
    steps: Seq<UploadStep>,
    i: int,
)
    requires
        sent_again(retries, frame, outcomes, steps),
        0 <= i < steps.len(),
    ensures
        retries[i].attempt == i + 1,
    decreases i,
{
    if i > 0 {
        lemma_attempts(retries, frame, outcomes, steps, i - 1);
        assert(retry_ok(retries[i - 1]));
        assert(steps[i - 1] is Retry);
    }
}

/// The server's verdict on a frame is good exactly if its number is zero, and else the number is
/// told.
pub proof fn law_verdict(status: i32, result: Result<(), String>)
    requires
        is_verdict(status, result),
    ensures
        result is Ok <==> status == 0,
        result matches Err(e) ==> exists|head: Seq<char>|
            e@ == #[trigger] (head + signed_digits(status as int)),
{
    if let Err(e) = result {
        assert(e@ == "Got back validation code "@ + signed_digits(status as int));
    }
}

/// With a frame go the whole seconds that it took, the memory that it used and, where the renderer
/// was measured, its speed. The file is announced by its name, and as an image of the kind that its
/// extension says.
pub proof fn law_upload_announces(
    request: UploadRequest,
    frame: RenderResult,
    speedSamples: Option<Seq<char>>,
    url: Seq<char>,
)
    requires
        is_upload(request, frame, speedSamples, url),
    ensures
        ({
            let query = pair_views(request.query@);
            &&& request.url@ == url
            &&& query.len() == if speedSamples is Some {
                3nat
            } else {
                2nat
            }
            &&& query[0] == ("rendertime"@, digits(frame.renderTime@ / 1000000000))
            &&& query[1] == ("memoryused"@, digits(frame.memoryUsed as nat))
            &&& speedSamples matches Some(speed) ==> query[2] == ("speedsamples"@, speed)
            &&& request.partName@ == "file"@
            &&& frame.output@.len() > 0 && frame.output@.last() != ".."@ ==> request.fileName@
                == frame.output@.last()
            &&& path_extension(frame.output@) matches Some(kind) ==> request.mime@ == "image/"@
                + kind
            &&& path_extension(frame.output@) is None ==> request.mime@ == "image/"@ + "png"@
        }),
{
}

/// The first attempt is followed by 22 seconds, and each of the three can be under way; there is no
/// fourth.
pub proof fn law_attempts(retry: UploadRetry)
    ensures
        retry_ok(retry) <==> retry == (UploadRetry { attempt: 1, wait: 22 }) || retry == (
        UploadRetry { attempt: 2, wait: 44 }) || retry == (UploadRetry { attempt: 3, wait: 88 }),
{
    reveal_with_fuel(wait_after, 4);
    if retry_ok(retry) {
        assert(retry.attempt == 1 || retry.attempt == 2 || retry.attempt == 3);
    }
}

} // verus!
