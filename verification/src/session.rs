//! Sessions with the server: from the login to the logout, and what runs beside them.

use vstd::prelude::*;

use crate::client::{AppLoopAction, ClientState, ClientStateMut, fresh_state};
use crate::conf::text_view;
use crate::render::RenderResult;
use crate::span::{SECOND, TimeSpan};
use crate::text::glue;
use crate::utils::{because, messageBecause};

verus! {

/// How often the client may find its session dead, with no round done between, before it gives
/// up.
pub const MAX_ATTEMPTS: u32 = 3;

/// What the client is about.
#[derive(Debug)]
pub enum Stage {
    /// Logging in.
    Connecting,
    /// Starting what runs beside the session.
    Initializing,
    /// Waiting until the working directory is clean.
    AwaitingClean,
    /// Looking whether to go on.
    Looking,
    /// Sleeping for a second, because it is paused.
    Pausing,
    /// In a round of its loop.
    Running,
    /// Stopping what runs beside the session, to log in again or for good.
    Stopping { relogin: bool },
    /// Sleeping for five seconds, before it logs in again.
    Resting,
    /// Cleaning up and logging out.
    CleaningUp,
    Over(Result<(), String>),
}

/// How the cleaning of the working directory went.
#[derive(Debug)]
pub enum CleanOutcome {
    Clean,
    Failed(String),
    /// Whoever cleaned did not come back.
    Lost,
}

/// What ends a stage.
#[derive(Debug)]
pub enum SessionEvent {
    Connected(Result<(), String>),
    Initialized(Result<(), String>),
    Cleaned(CleanOutcome),
    Looked,
    Slept,
    Ran(AppLoopAction),
    Stopped,
    CleanedUp,
}

/// The client's course through its sessions.
#[derive(Debug)]
pub struct Session {
    pub stage: Stage,
    pub attempts: u32,
    /// Whether the working directory is known to be clean.
    pub cleaned: bool,
}

/// Whether an event is one that ends a stage.
pub open spec fn ends(stage: Stage, event: SessionEvent) -> bool {
    match stage {
        Stage::Connecting => event is Connected,
        Stage::Initializing => event is Initialized,
        Stage::AwaitingClean => event is Cleaned,
        Stage::Looking => event is Looked,
        Stage::Pausing => event is Slept,
        Stage::Running => event is Ran,
        Stage::Stopping { relogin } => event is Stopped,
        Stage::Resting => event is Slept,
        Stage::CleaningUp => event is CleanedUp,
        Stage::Over(_) => false,
    }
}

/// What is always true of a course: the attempts that are counted are those that are allowed.
pub open spec fn session_ok(session: Session) -> bool {
    1 <= session.attempts <= MAX_ATTEMPTS
}

/// Whether a stage is the end, for the given reason.
pub open spec fn over_with(stage: Stage, message: Seq<char>) -> bool {
    match stage {
        Stage::Over(Err(e)) => e@ == message,
        _ => false,
    }
}

/// Whether an event leads from one point of a course to another; `notice` is what the user is
/// told then.
pub open spec fn advanced(
    before: Session,
    clientBefore: ClientState,
    event: SessionEvent,
    after: Session,
    client: ClientState,
    notice: Option<Seq<char>>,
) -> bool {
    let stopped = ClientState { shouldRun: false, ..clientBefore };
    let same = after.attempts == before.attempts && after.cleaned == before.cleaned;
    let quiet = client == clientBefore && notice is None;
    match event {
        SessionEvent::Connected(Err(e)) => same && quiet && over_with(after.stage, e@),
        SessionEvent::Connected(Ok(_)) => same && client == fresh_state() && notice is None
            && after.stage is Initializing,
        SessionEvent::Initialized(result) => {
            &&& same
            &&& match result {
                Ok(_) => quiet,
                Err(e) => client == stopped && notice == Some("Failed to init: "@ + e@),
            }
            &&& after.stage == if before.cleaned {
                Stage::Looking
            } else {
                Stage::AwaitingClean
            }
        },
        SessionEvent::Cleaned(CleanOutcome::Clean) => quiet && after == (Session {
            stage: Stage::Looking,
            attempts: before.attempts,
            cleaned: true,
        }),
        SessionEvent::Cleaned(CleanOutcome::Failed(e)) => same && quiet && over_with(
            after.stage,
            because("Failed to clean working dir"@, e@),
        ),
        SessionEvent::Cleaned(CleanOutcome::Lost) => same && quiet && over_with(
            after.stage,
            "Failed to execute"@,
        ),
        SessionEvent::Looked => same && quiet && after.stage == if !clientBefore.shouldRun {
            Stage::Stopping { relogin: false }
        } else if clientBefore.paused {
            Stage::Pausing
        } else {
            Stage::Running
        },
        SessionEvent::Slept => same && quiet && after.stage == if before.stage is Resting {
            Stage::Connecting
        } else {
            Stage::Looking
        },
        SessionEvent::Ran(AppLoopAction::Continue) => quiet && after == (Session {
            stage: Stage::Looking,
            attempts: 1,
            cleaned: before.cleaned,
        }),
        SessionEvent::Ran(AppLoopAction::CreateNewSession) => {
            &&& client == stopped
            &&& notice is None
            &&& after == if before.attempts == MAX_ATTEMPTS {
                Session { stage: Stage::Stopping { relogin: false }, ..before }
            } else {
                Session {
                    stage: Stage::Stopping { relogin: true },
                    attempts: (before.attempts + 1) as u32,
                    cleaned: before.cleaned,
                }
            }
        },
        SessionEvent::Ran(AppLoopAction::FatalStop(fatal)) => {
            &&& same
            &&& client == stopped
            &&& notice == Some(
                "A fatal error has occurred. Shutting down because:\n\t"@ + fatal@,
            )
            &&& after.stage is Looking
        },
        SessionEvent::Stopped => same && quiet && after.stage == if before.stage == (
        Stage::Stopping { relogin: true }) {
            Stage::Resting
        } else {
            Stage::CleaningUp
        },
        SessionEvent::CleanedUp => same && quiet && after.stage == Stage::Over(Ok(())),
    }
}

impl Session {
    /// The course before the first login.
    pub fn begin() -> (r: Session)
        ensures
            r == (Session { stage: Stage::Connecting, attempts: 1, cleaned: false }),
            session_ok(r),
    {
        Session { stage: Stage::Connecting, attempts: 1, cleaned: false }
    }

    /// Goes on to the next stage. What the user is to be told is given back.
    pub fn advance(&mut self, client: &mut ClientState, event: SessionEvent) -> (r: Option<String>)
        requires
            session_ok(*old(self)),
            ends(old(self).stage, event),
        ensures
            session_ok(*final(self)),
            advanced(*old(self), *old(client), event, *final(self), *final(client), text_view(r)),
    {
        match event {
            SessionEvent::Connected(Err(e)) => {
                self.stage = Stage::Over(Err(e));
                None
            },
            SessionEvent::Connected(Ok(_)) => {
                *client = ClientState::fresh();
                self.stage = Stage::Initializing;
                None
            },
            SessionEvent::Initialized(result) => {
                self.stage = if self.cleaned {
                    Stage::Looking
                } else {
                    Stage::AwaitingClean
                };
                match result {
                    Ok(_) => None,
                    Err(e) => {
                        client.stop();
                        Some(glue("Failed to init: ", e.as_str()))
                    },
                }
            },
            SessionEvent::Cleaned(CleanOutcome::Clean) => {
                self.cleaned = true;
                self.stage = Stage::Looking;
                None
            },
            SessionEvent::Cleaned(CleanOutcome::Failed(e)) => {
                self.stage = Stage::Over(
                    Err(messageBecause("Failed to clean working dir", e.as_str())),
                );
                None
            },
            SessionEvent::Cleaned(CleanOutcome::Lost) => {
                self.stage = Stage::Over(Err("Failed to execute".to_owned()));
                None
            },
            SessionEvent::Looked => {
                self.stage = if !client.shouldRun {
                    Stage::Stopping { relogin: false }
                } else if client.paused {
                    Stage::Pausing
                } else {
                    Stage::Running
                };
                None
            },
            SessionEvent::Slept => {
                self.stage = match self.stage {
                    Stage::Resting => Stage::Connecting,
                    _ => Stage::Looking,
                };
                None
            },
            SessionEvent::Ran(AppLoopAction::Continue) => {
                self.attempts = 1;
                self.stage = Stage::Looking;
                None
            },
            SessionEvent::Ran(AppLoopAction::CreateNewSession) => {
                client.stop();
                if self.attempts == MAX_ATTEMPTS {
                    self.stage = Stage::Stopping { relogin: false };
                } else {
                    self.attempts = self.attempts + 1;
                    self.stage = Stage::Stopping { relogin: true };
                }
                None
            },
            SessionEvent::Ran(AppLoopAction::FatalStop(fatal)) => {
                client.stop();
                self.stage = Stage::Looking;
                Some(
                    glue("A fatal error has occurred. Shutting down because:\n\t", fatal.as_str()),
                )
            },
            SessionEvent::Stopped => {
                self.stage = match self.stage {
                    Stage::Stopping { relogin: true } => Stage::Resting,
                    _ => Stage::CleaningUp,
                };
                None
            },
            SessionEvent::CleanedUp => {
                self.stage = Stage::Over(Ok(()));
                None
            },
        }
    }
}

// What holds of every course

/// A point of a course.
pub struct Point {
    pub session: Session,
    pub client: ClientState,
}

/// Whether events lead through the points of a course. Between two events the rest of the client
/// may pause it, or count downloads, but not set it running again.
pub open spec fn course(points: Seq<Point>, events: Seq<SessionEvent>) -> bool {
    &&& points.len() == events.len() + 1
    &&& points[0].session == (Session { stage: Stage::Connecting, attempts: 1, cleaned: false })
    &&& forall|i: int|
        0 <= i < events.len() ==> #[trigger] leads(points[i], events[i], points[i + 1])
}

/// Whether an event leads from one point of a course to the next.
pub open spec fn leads(before: Point, event: SessionEvent, after: Point) -> bool {
    &&& ends(before.session.stage, event)
    &&& exists|client: ClientState, notice: Option<Seq<char>>|
        {
            &&& #[trigger] advanced(
                before.session,
                before.client,
                event,
                after.session,
                client,
                notice,
            )
            &&& after.client.shouldRun ==> client.shouldRun
        }
}

/// How often the session was found dead since a round was last done.
pub open spec fn dead_in_a_row(events: Seq<SessionEvent>) -> nat
    decreases events.len(),
{
    if events.len() == 0 {
        0
    } else {
        match events.last() {
            SessionEvent::Ran(AppLoopAction::Continue) => 0,
            SessionEvent::Ran(AppLoopAction::CreateNewSession) => dead_in_a_row(events.drop_last())
                + 1,
            _ => dead_in_a_row(events.drop_last()),
        }
    }
}

/// Whether a course goes towards its end: no login and no round of the loop can follow.
pub open spec fn winding_up(point: Point) -> bool {
    match point.session.stage {
        Stage::Stopping { relogin } => !relogin,
        Stage::CleaningUp | Stage::Over(_) => true,
        Stage::Looking => !point.client.shouldRun,
        _ => false,
    }
}

/// On every course the session is found dead at most three times in a row: after the third time
/// the client winds up. Before that, the attempts are the number of such times and one.
pub proof fn law_dead_sessions_bounded(points: Seq<Point>, events: Seq<SessionEvent>)
    requires
        course(points, events),
    ensures
        session_ok(points.last().session),
        dead_in_a_row(events) <= MAX_ATTEMPTS,
        if dead_in_a_row(events) < MAX_ATTEMPTS {
            points.last().session.attempts == dead_in_a_row(events) + 1
        } else {
            winding_up(points.last()) && points.last().session.attempts == MAX_ATTEMPTS
        },
    decreases events.len(),
{
    if events.len() > 0 {
        let n = events.len() - 1;
        lemma_course_before(points, events);
        law_dead_sessions_bounded(points.drop_last(), events.drop_last());
        assert(leads(points[n], events[n], points[n + 1]));
        assert(points.drop_last().last() == points[n]);
    }
}

proof fn lemma_course_before(points: Seq<Point>, events: Seq<SessionEvent>)
    requires
        course(points, events),
        events.len() > 0,
    ensures
        course(points.drop_last(), events.drop_last()),
{
    let n = events.len() - 1;
    assert forall|i: int| 0 <= i < n implies #[trigger] leads(
        points.drop_last()[i],
        events.drop_last()[i],
        points.drop_last()[i + 1],
    ) by {
        assert(leads(points[i], events[i], points[i + 1]));
    }
}

/// A course that winds up keeps winding up: the client does not log in again, nor take a job.
pub proof fn law_winding_up(before: Point, event: SessionEvent, after: Point)
    requires
        winding_up(before),
        leads(before, event, after),
    ensures
        winding_up(after),
        !(after.session.stage is Running) && !(after.session.stage is Connecting),
{
}

/// A fatal error winds the client up, and so does a failure to start what runs beside the
/// session, once the working directory is clean.
pub proof fn law_fatal_winds_up(before: Point, event: SessionEvent, after: Point)
    requires
        leads(before, event, after),
        event matches SessionEvent::Ran(action) && action is FatalStop || (
        event matches SessionEvent::Initialized(result) && result is Err && before.session.cleaned),
    ensures
        winding_up(after),
{
}

/// On every course the client runs no round before its working directory is known to be clean.
pub proof fn law_clean_before_running(points: Seq<Point>, events: Seq<SessionEvent>)
    requires
        course(points, events),
    ensures
        match points.last().session.stage {
            Stage::Connecting | Stage::Initializing | Stage::AwaitingClean | Stage::Over(_) => true,
            _ => points.last().session.cleaned,
        },
    decreases events.len(),
{
    if events.len() > 0 {
        let n = events.len() - 1;
        lemma_course_before(points, events);
        law_clean_before_running(points.drop_last(), events.drop_last());
        assert(leads(points[n], events[n], points[n + 1]));
        assert(points.drop_last().last() == points[n]);
    }
}

// What runs beside a session

/// How often the server is told that the client is alive, in seconds.
pub const KEEP_ALIVE_PERIOD: u64 = 900;

/// What is next in keeping a session alive.
#[derive(Debug)]
pub enum KeepAliveStep {
    End,
    Sleep(TimeSpan),
    /// Tell the server.
    Poke,
}

/// Whether a step is what is next in keeping a session alive.
pub open spec fn kept_alive(
    state: ClientState,
    lastPoke: Option<TimeSpan>,
    now: TimeSpan,
    step: KeepAliveStep,
) -> bool {
    match step {
        KeepAliveStep::End => !state.shouldRun,
        KeepAliveStep::Poke => state.shouldRun && match lastPoke {
            Some(poke) => now@ >= poke@ + KEEP_ALIVE_PERIOD * SECOND,
            None => true,
        },
        KeepAliveStep::Sleep(time) => {
            &&& state.shouldRun
            &&& lastPoke is Some
            &&& now@ < lastPoke->0@ + KEEP_ALIVE_PERIOD * SECOND
            &&& time@ == ({
                let passed = if now@ >= lastPoke->0@ {
                    now@ - lastPoke->0@
                } else {
                    0
                };
                let left = KEEP_ALIVE_PERIOD * SECOND - passed;
                if left <= 2 * SECOND {
                    left
                } else {
                    2 * SECOND
                }
            })
        },
    }
}

/// What is next in keeping a session alive. `lastPoke` is when the server was last told, if it
/// was; times are counted from one start.
pub fn keepAlive(state: &ClientState, lastPoke: Option<TimeSpan>, now: TimeSpan) -> (r:
    KeepAliveStep)
    ensures
        kept_alive(*state, lastPoke, now, r),
{
    if !state.shouldRun {
        return KeepAliveStep::End;
    }
    let poke = match lastPoke {
        Some(poke) => poke,
        None => {
            return KeepAliveStep::Poke;
        },
    };
    let passed = now.saturatingSub(poke);
    let left = TimeSpan::fromSecs(KEEP_ALIVE_PERIOD).saturatingSub(passed);
    let time = left.shorter(TimeSpan::fromSecs(2));
    if time.isZero() {
        KeepAliveStep::Poke
    } else {
        KeepAliveStep::Sleep(time)
    }
}

/// What follows when the server was told that the client is alive.
#[derive(Debug)]
pub enum AfterPoke {
    /// It is told again when the period is over.
    Remember,
    /// It did not hear; try again after so many seconds.
    Sleep(u64),
}

/// What follows when the server was told that the client is alive.
pub open spec fn after_poke(heard: bool) -> AfterPoke {
    if heard {
        AfterPoke::Remember
    } else {
        AfterPoke::Sleep(60)
    }
}

/// What follows when the server was told that the client is alive.
pub fn afterPoke(heard: bool) -> (r: AfterPoke)
    ensures
        r == after_poke(heard),
{
    if heard {
        AfterPoke::Remember
    } else {
        AfterPoke::Sleep(60)
    }
}

/// What the uploader is sent.
#[derive(Debug)]
pub enum FrameUploadMessage {
    Frame(RenderResult),
    End,
}

/// What the uploader does.
#[derive(Debug)]
pub enum UploaderStep {
    Upload(RenderResult),
    End,
}

/// What the uploader does with what it is sent; nothing is sent any more when there is no message.
pub open spec fn uploader_step(message: Option<FrameUploadMessage>) -> UploaderStep {
    match message {
        Some(FrameUploadMessage::Frame(frame)) => UploaderStep::Upload(frame),
        _ => UploaderStep::End,
    }
}

/// What the uploader does with what it is sent; nothing is sent any more when there is no message.
pub fn uploaderStep(message: Option<FrameUploadMessage>) -> (r: UploaderStep)
    ensures
        r == uploader_step(message),
{
    match message {
        Some(FrameUploadMessage::Frame(frame)) => UploaderStep::Upload(frame),
        _ => UploaderStep::End,
    }
}

/// The frames that the uploader uploads when it takes in the messages one by one, until it ends.
pub open spec fn uploads(messages: Seq<Option<FrameUploadMessage>>) -> Seq<RenderResult>
    decreases messages.len(),
{
    if messages.len() == 0 {
        Seq::empty()
    } else {
        match uploader_step(messages[0]) {
            UploaderStep::Upload(frame) => seq![frame] + uploads(messages.skip(1)),
            UploaderStep::End => Seq::empty(),
        }
    }
}

/// Whether a message is a frame.
pub open spec fn is_frame(message: Option<FrameUploadMessage>) -> bool {
    message matches Some(m) && m is Frame
}

/// Whether the first so many messages are frames, and the next, if there is one, is none.
pub open spec fn frames_in_front(messages: Seq<Option<FrameUploadMessage>>, n: nat) -> bool {
    &&& n <= messages.len()
    &&& forall|i: int| 0 <= i < n ==> is_frame(#[trigger] messages[i])
    &&& n < messages.len() ==> !is_frame(messages[n as int])
}

/// Exactly the frames that are sent before the end, or before nothing is sent any more, are
/// uploaded, in the order in which they were sent.
pub proof fn law_frames_uploaded(messages: Seq<Option<FrameUploadMessage>>, n: nat)
    requires
        frames_in_front(messages, n),
    ensures
        uploads(messages).len() == n,
        forall|i: int|
            0 <= i < n ==> messages[i] == Some(
                FrameUploadMessage::Frame(#[trigger] uploads(messages)[i]),
            ),
    decreases n,
{
    if n > 0 {
        let rest = messages.skip(1);
        assert(is_frame(messages[0]));
        assert forall|i: int| 0 <= i < n - 1 implies is_frame(#[trigger] rest[i]) by {
            assert(rest[i] == messages[i + 1]);
        }
        law_frames_uploaded(rest, (n - 1) as nat);
        assert forall|i: int| 0 <= i < n implies messages[i] == Some(
            FrameUploadMessage::Frame(#[trigger] uploads(messages)[i]),
        ) by {
            if i > 0 {
                assert(uploads(messages)[i] == uploads(rest)[i - 1]);
                assert(rest[i - 1] == messages[i]);
            }
        }
    }
}

/// What the user is told at the end.
pub open spec fn cleanup_notice(cleaned: Option<Result<(), String>>) -> Seq<char> {
    match cleaned {
        Some(Err(e)) => "Failed to clean work dir: "@ + e@,
        _ => "Cleaned up!"@,
    }
}

/// What the user is told at the end. `cleaned` is how the cleaning of the working directory went,
/// if whoever cleaned came back.
pub fn cleanupNotice(cleaned: &Option<Result<(), String>>) -> (r: String)
    ensures
        r@ == cleanup_notice(*cleaned),
{
    match cleaned {
        Some(Err(e)) => glue("Failed to clean work dir: ", e.as_str()),
        _ => "Cleaned up!".to_owned(),
    }
}

/// A failure to clean up is told with its cause, and nothing else is told as one.
pub proof fn law_cleanup_notice(cleaned: Option<Result<(), String>>, cause: String)
    ensures
        exists|head: Seq<char>| cleanup_notice(Some(Err(cause))) == #[trigger] (head + cause@),
        cleaned matches Some(r) ==> r is Ok ==> cleanup_notice(cleaned) == cleanup_notice(None),
        cleanup_notice(Some(Err(cause))) != cleanup_notice(None),
{
    assert(cleanup_notice(Some(Err(cause))) == "Failed to clean work dir: "@ + cause@);
    reveal_strlit("Failed to clean work dir: ");
    reveal_strlit("Cleaned up!");
    assert(cleanup_notice(Some(Err(cause)))[0] == 'F');
    assert(cleanup_notice(None)[0] == 'C');
}

// What keeping alive is for

/// As long as the client runs, the server is told within a quarter of an hour of the last time: it is
/// told at once when that is over or it was never told, and until then the client sleeps, two seconds
/// at most and never beyond that time. A client that does not run ends.
pub proof fn law_kept_alive(
    state: ClientState,
    lastPoke: Option<TimeSpan>,
    now: TimeSpan,
    step: KeepAliveStep,
)
    requires
        kept_alive(state, lastPoke, now, step),
    ensures
        !state.shouldRun <==> step is End,
        step is Poke <==> state.shouldRun && (lastPoke is None || now@ >= lastPoke->0@
            + 900000000000),
        step matches KeepAliveStep::Sleep(time) ==> {
            &&& lastPoke is Some
            &&& 0 < time@ <= 2000000000
            &&& now@ >= lastPoke->0@ ==> now@ + time@ <= lastPoke->0@ + 900000000000
            &&& now@ >= lastPoke->0@ && time@ < 2000000000 ==> now@ + time@ == lastPoke->0@
                + 900000000000
        },
{
}

/// When the server did not hear, it is told again after a minute; when it did, the period starts
/// anew.
pub proof fn law_after_poke(heard: bool)
    ensures
        heard <==> after_poke(heard) is Remember,
        !heard ==> after_poke(heard) == AfterPoke::Sleep(60),
{
}

// What each event of a session is for

/// Without a login there is no session; with one, it starts afresh.
pub proof fn law_connected(
    before: Session,
    clientBefore: ClientState,
    result: Result<(), String>,
    after: Session,
    client: ClientState,
    notice: Option<Seq<char>>,
)
    requires
        advanced(before, clientBefore, SessionEvent::Connected(result), after, client, notice),
    ensures
        result is Ok <==> after.stage is Initializing,
        result matches Err(e) ==> (after.stage matches Stage::Over(Err(m)) && m@ == e@),
        result is Ok ==> client.shouldRun && !client.paused && client.downloadStats.bytes == 0,
        after.attempts == before.attempts,
        after.cleaned == before.cleaned,
        notice is None,
{
}

/// What runs beside a session has to start, or the client stops and says why; either way the working
/// directory comes first, unless it is clean.
pub proof fn law_initialized(
    before: Session,
    clientBefore: ClientState,
    result: Result<(), String>,
    after: Session,
    client: ClientState,
    notice: Option<Seq<char>>,
)
    requires
        advanced(before, clientBefore, SessionEvent::Initialized(result), after, client, notice),
    ensures
        before.cleaned <==> after.stage is Looking,
        !before.cleaned <==> after.stage is AwaitingClean,
        result is Ok ==> client == clientBefore && notice is None,
        result is Err ==> !client.shouldRun && client.paused == clientBefore.paused
            && client.downloadStats == clientBefore.downloadStats,
        result matches Err(e) ==> (notice matches Some(told) && exists|head: Seq<char>|
            told == #[trigger] (head + e@)),
        after.attempts == before.attempts,
        after.cleaned == before.cleaned,
{
    if let Err(e) = result {
        assert(notice->0 == "Failed to init: "@ + e@);
    }
}

/// The working directory is known to be clean exactly if it was cleaned; else the client ends, and
/// says why where that is known.
pub proof fn law_cleaned(
    before: Session,
    clientBefore: ClientState,
    outcome: CleanOutcome,
    after: Session,
    client: ClientState,
    notice: Option<Seq<char>>,
)
    requires
        advanced(before, clientBefore, SessionEvent::Cleaned(outcome), after, client, notice),
    ensures
        outcome is Clean <==> after.stage is Looking,
        outcome is Clean ==> after.cleaned,
        !(outcome is Clean) ==> (after.stage matches Stage::Over(result) && result is Err)
            && after.cleaned == before.cleaned,
        outcome matches CleanOutcome::Failed(e) ==> exists|head: Seq<char>|
            after.stage->Over_0->Err_0@ == #[trigger] (head + e@),
        client == clientBefore,
        after.attempts == before.attempts,
{
    if let CleanOutcome::Failed(e) = outcome {
        assert(after.stage->Over_0->Err_0@ == ("Failed to clean working dir"@ + " because: "@)
            + e@);
    }
}

/// A round is run exactly if the client is to run and is not paused; while it is paused it sleeps;
/// once it is not to run it stops for good.
pub proof fn law_looked(
    before: Session,
    clientBefore: ClientState,
    after: Session,
    client: ClientState,
    notice: Option<Seq<char>>,
)
    requires
        advanced(before, clientBefore, SessionEvent::Looked, after, client, notice),
    ensures
        after.stage is Running <==> clientBefore.shouldRun && !clientBefore.paused,
        after.stage is Pausing <==> clientBefore.shouldRun && clientBefore.paused,
        after.stage == (Stage::Stopping { relogin: false }) <==> !clientBefore.shouldRun,
        client == clientBefore,
        after.attempts == before.attempts,
        after.cleaned == before.cleaned,
{
}

/// After a rest the client logs in again; after a pause, or a round that went well, it looks again.
/// A round that went well makes up for the sessions that were found dead.
pub proof fn law_went_on(
    before: Session,
    clientBefore: ClientState,
    event: SessionEvent,
    after: Session,
    client: ClientState,
    notice: Option<Seq<char>>,
)
    requires
        ends(before.stage, event),
        advanced(before, clientBefore, event, after, client, notice),
        event is Slept || (event matches SessionEvent::Ran(action) && action is Continue),
    ensures
        after.stage is Connecting <==> before.stage is Resting,
        !(before.stage is Resting) ==> after.stage is Looking,
        event is Slept ==> after.attempts == before.attempts,
        event is Ran ==> after.attempts == 1,
        after.cleaned == before.cleaned,
        client == clientBefore,
        notice is None,
{
}

/// A dead session is stopped, to log in again unless that was tried three times. A fatal error stops
/// the client, and the user is told why.
pub proof fn law_round_failed(
    before: Session,
    clientBefore: ClientState,
    action: AppLoopAction,
    after: Session,
    client: ClientState,
    notice: Option<Seq<char>>,
)
    requires
        session_ok(before),
        advanced(before, clientBefore, SessionEvent::Ran(action), after, client, notice),
        !(action is Continue),
    ensures
        !client.shouldRun,
        client.paused == clientBefore.paused,
        client.downloadStats == clientBefore.downloadStats,
        after.cleaned == before.cleaned,
        action is CreateNewSession && before.attempts < 3 ==> after.stage == (Stage::Stopping {
            relogin: true,
        }) && after.attempts == before.attempts + 1,
        action is CreateNewSession ==> notice is None,
        action is CreateNewSession && before.attempts == 3 ==> after.stage == (Stage::Stopping {
            relogin: false,
        }) && after.attempts == 3,
        action matches AppLoopAction::FatalStop(why) ==> after.stage is Looking && after.attempts
            == before.attempts && (notice matches Some(told) && exists|head: Seq<char>|
            told == #[trigger] (head + why@)),
{
    if let AppLoopAction::FatalStop(why) = action {
        assert(notice->0 == "A fatal error has occurred. Shutting down because:\n\t"@ + why@);
    }
}

/// What runs beside a session is stopped before the client rests to log in again, or before it cleans
/// up; and when it has cleaned up it is over, and all is well.
pub proof fn law_wound_up(
    before: Session,
    clientBefore: ClientState,
    event: SessionEvent,
    after: Session,
    client: ClientState,
    notice: Option<Seq<char>>,
)
    requires
        ends(before.stage, event),
        advanced(before, clientBefore, event, after, client, notice),
        event is Stopped || event is CleanedUp,
    ensures
        before.stage == (Stage::Stopping { relogin: true }) <==> after.stage is Resting,
        before.stage == (Stage::Stopping { relogin: false }) <==> after.stage is CleaningUp,
        before.stage is CleaningUp <==> (after.stage matches Stage::Over(result) && result is Ok),
        client == clientBefore,
        after.attempts == before.attempts,
        after.cleaned == before.cleaned,
{
}

} // verus!
