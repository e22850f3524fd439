//! The client's screen: what keys do, and what is drawn.

use vstd::prelude::*;

use crate::global::{QuitState, Task, WorkerState, log, task_names};
use crate::number::{decimal, digits};
use crate::outside::ascii_lower;
use crate::span::{SECOND, TimeSpan};
use crate::text::glue;

verus! {

/// How many rows the tasks get.
pub const MAX_TASKS: u16 = 10;

/// The key that, with `Ctrl`, makes the client quit.
pub const QUIT_KEY: char = 'c';

/// What the screen remembers.
#[derive(Debug, Clone, Copy, PartialEq, Eq, Structural)]
pub struct UIState {
    pub spinId: u8,
    pub task_scroll: u16,
    pub log_scroll: u16,
    /// When the screen was last looked after; times are counted from one start.
    pub lastCheck: TimeSpan,
}

/// What the screen's loop does next.
#[derive(Debug, Clone, Copy, PartialEq, Eq, Structural)]
pub enum UILoop {
    Normal,
    Force,
    Quit,
    Sleep,
}

/// What happened at the terminal.
#[derive(Debug, Clone, Copy, PartialEq, Eq, Structural)]
pub enum UIEvent {
    /// Nothing, for a while.
    Idle,
    /// A key with a character was pressed, alone with `Ctrl` or not.
    Press { key: char, control: bool },
    Resize,
    Other,
}

impl UIState {
    /// The screen before it is first drawn.
    pub fn new(now: TimeSpan) -> (r: UIState)
        ensures
            r == (UIState { spinId: 0, task_scroll: 0, log_scroll: 0, lastCheck: now }),
    {
        UIState { spinId: 0, task_scroll: 0, log_scroll: 0, lastCheck: now }
    }
}

/// The name of a task that is added to so many others.
pub open spec fn next_task_name(count: nat) -> Seq<char> {
    "Task "@ + digits(count + 1)
}

/// Adds a task, named after how many there are then.
pub fn addTask(state: &mut WorkerState, progress: u32)
    requires
        old(state).tasks@.len() < usize::MAX,
    ensures
        final(state).quitState == old(state).quitState,
        final(state).log == old(state).log,
        final(state).tasks@.len() == old(state).tasks@.len() + 1,
        final(state).tasks@.drop_last() == old(state).tasks@,
        final(state).tasks@.last().name@ == next_task_name(old(state).tasks@.len()),
        final(state).tasks@.last().progress == progress,
{
    let name = glue("Task ", decimal((state.tasks.len() + 1) as u64).as_str());
    state.tasks.push(Task { name, progress });
    assert(state.tasks@.drop_last() == old(state).tasks@);
}

/// A character, an ASCII letter in lower case.
fn asciiLowercase(c: char) -> (r: char)
    ensures
        r == ascii_lower(c),
{
    if 'A' <= c && c <= 'Z' {
        ((c as u8) + 32) as char
    } else {
        c
    }
}

/// What a key does.
pub enum KeyEffect {
    Nothing,
    Quitting(QuitState, UILoop),
    ScrollUp,
    ScrollDown,
    AddTask,
    RemoveTask,
}

/// What a key does, in a state.
pub open spec fn key_effect(
    key: char,
    control: bool,
    quitState: QuitState,
    task_scroll: u16,
) -> KeyEffect {
    let key = ascii_lower(key);
    if key == QUIT_KEY {
        if !control {
            KeyEffect::Nothing
        } else {
            match quitState {
                QuitState::Running => KeyEffect::Quitting(QuitState::Quitting, UILoop::Quit),
                QuitState::Quitting => KeyEffect::Quitting(QuitState::QuittingNow, UILoop::Normal),
                _ => KeyEffect::Quitting(quitState, UILoop::Quit),
            }
        }
    } else if key == '1' {
        if task_scroll > 0 {
            KeyEffect::ScrollUp
        } else {
            KeyEffect::Nothing
        }
    } else if key == '2' {
        KeyEffect::ScrollDown
    } else if key == '3' {
        KeyEffect::AddTask
    } else if key == '4' {
        KeyEffect::RemoveTask
    } else {
        KeyEffect::Nothing
    }
}

/// Whether a key left the state and the screen, and moves the screen's loop, as it should.
/// `progress` is that of a task which the key adds.
pub open spec fn key_done(
    effect: KeyEffect,
    state: WorkerState,
    ui: UIState,
    progress: u32,
    after: WorkerState,
    uiAfter: UIState,
    next: UILoop,
) -> bool {
    match effect {
        KeyEffect::Nothing => after == state && uiAfter == ui && next is Normal,
        KeyEffect::Quitting(quit, then) => after == (WorkerState { quitState: quit, ..state })
            && uiAfter == ui && next == then,
        KeyEffect::ScrollUp => {
            &&& after.quitState == state.quitState
            &&& after.tasks == state.tasks
            &&& after.log@ == state.log@ + "scrolled up\n"@
            &&& uiAfter == (UIState { task_scroll: (ui.task_scroll - 1) as u16, ..ui })
            &&& next is Force
        },
        KeyEffect::ScrollDown => {
            &&& after.quitState == state.quitState
            &&& after.tasks == state.tasks
            &&& after.log@ == state.log@ + "scrolled down\n"@
            &&& uiAfter == (UIState { task_scroll: (ui.task_scroll + 1) as u16, ..ui })
            &&& next is Force
        },
        KeyEffect::AddTask => {
            &&& after.quitState == state.quitState
            &&& after.tasks@.len() == state.tasks@.len() + 1
            &&& after.tasks@.drop_last() == state.tasks@
            &&& after.tasks@.last().name@ == next_task_name(state.tasks@.len())
            &&& after.tasks@.last().progress == progress
            &&& after.log@ == state.log@ + "added task\n"@
            &&& uiAfter == ui
            &&& next is Force
        },
        KeyEffect::RemoveTask => {
            &&& after.quitState == state.quitState
            &&& after.tasks@ == if state.tasks@.len() > 0 {
                state.tasks@.drop_last()
            } else {
                state.tasks@
            }
            &&& after.log@ == state.log@ + "removed task\n"@
            &&& uiAfter == ui
            &&& next is Force
        },
    }
}

/// What is next when nothing happened: the screen is looked after ten times a second.
pub open spec fn idle_next(lastCheck: nat, now: nat) -> UILoop {
    if now > lastCheck + SECOND / 10 {
        UILoop::Normal
    } else {
        UILoop::Sleep
    }
}

/// Whether there is room for what an event does: a client that has quit is not quit again, and
/// neither scrolling nor adding tasks goes on without end.
pub open spec fn can_take(event: UIEvent, state: WorkerState, ui: UIState) -> bool {
    match event {
        UIEvent::Press { key, control } => {
            &&& ascii_lower(key) == QUIT_KEY && control ==> !(state.quitState is Quit)
            &&& ascii_lower(key) == '2' ==> ui.task_scroll < u16::MAX
            &&& ascii_lower(key) == '3' ==> state.tasks@.len() < usize::MAX
        },
        _ => true,
    }
}

/// Takes in what happened at the terminal. `progress` is that of a task which a key adds.
pub fn poolInputs(
    state: &mut WorkerState,
    uiState: &mut UIState,
    event: UIEvent,
    now: TimeSpan,
    progress: u32,
) -> (r: UILoop)
    requires
        can_take(event, *old(state), *old(uiState)),
    ensures
        match event {
            UIEvent::Idle => {
                &&& *final(state) == *old(state)
                &&& *final(uiState) == *old(uiState)
                &&& r == idle_next(old(uiState).lastCheck@, now@)
            },
            UIEvent::Press { key, control } => key_done(
                key_effect(key, control, old(state).quitState, old(uiState).task_scroll),
                *old(state),
                *old(uiState),
                progress,
                *final(state),
                *final(uiState),
                r,
            ),
            UIEvent::Resize => *final(state) == *old(state) && *final(uiState) == *old(uiState)
                && r is Force,
            UIEvent::Other => *final(state) == *old(state) && *final(uiState) == *old(uiState)
                && r is Normal,
        },
{
    match event {
        UIEvent::Idle => {
            let passed = now.saturatingSub(uiState.lastCheck);
            if passed.asNanos() > SECOND / 10 {
                UILoop::Normal
            } else {
                UILoop::Sleep
            }
        },
        UIEvent::Press { key, control } => {
            let key = asciiLowercase(key);
            if key == QUIT_KEY {
                if control {
                    match state.quitState {
                        QuitState::Running => {
                            state.quitState = QuitState::Quitting;
                            return UILoop::Quit;
                        },
                        QuitState::Quitting => {
                            state.quitState = QuitState::QuittingNow;
                        },
                        _ => {
                            return UILoop::Quit;
                        },
                    }
                }
            } else if key == '1' {
                if uiState.task_scroll > 0 {
                    uiState.task_scroll = uiState.task_scroll - 1;
                    log(state, "scrolled up\n");
                    return UILoop::Force;
                }
            } else if key == '2' {
                uiState.task_scroll = uiState.task_scroll + 1;
                log(state, "scrolled down\n");
                return UILoop::Force;
            } else if key == '3' {
                addTask(state, progress);
                log(state, "added task\n");
                return UILoop::Force;
            } else if key == '4' {
                let _ = state.tasks.pop();
                log(state, "removed task\n");
                return UILoop::Force;
            }
            UILoop::Normal
        },
        UIEvent::Resize => UILoop::Force,
        UIEvent::Other => UILoop::Normal,
    }
}

/// Whether there is something that was not drawn yet.
pub open spec fn is_new(drawn: Option<&WorkerState>, state: WorkerState) -> bool {
    match drawn {
        None => true,
        Some(last) => state.quitState != last.quitState || task_names(state.tasks@) != task_names(
            last.tasks@,
        ) || state.log@ != last.log@,
    }
}

/// Whether the screen is drawn: when it must be, when there is something new, and every two
/// seconds.
pub open spec fn should_draw(
    next: UILoop,
    drawn: Option<&WorkerState>,
    state: WorkerState,
    sinceDrawn: nat,
) -> bool {
    match next {
        UILoop::Sleep | UILoop::Quit => false,
        UILoop::Force => true,
        UILoop::Normal => is_new(drawn, state) || sinceDrawn > 2 * SECOND,
    }
}

/// Whether the screen is drawn: when it must be, when there is something new, and every two
/// seconds. `drawn` is what was drawn last.
pub fn shouldDraw(
    next: UILoop,
    drawn: Option<&WorkerState>,
    state: &WorkerState,
    sinceDrawn: TimeSpan,
) -> (r: bool)
    ensures
        r == should_draw(next, drawn, *state, sinceDrawn@),
{
    match next {
        UILoop::Sleep | UILoop::Quit => false,
        UILoop::Force => true,
        UILoop::Normal => {
            let changed = match drawn {
                None => true,
                Some(last) => *state != *last,
            };
            changed || sinceDrawn.asNanos() > 2 * SECOND
        },
    }
}

/// A key never takes anything back that was logged, and adds or removes one task at most.
pub proof fn law_keys_keep_the_log(
    effect: KeyEffect,
    state: WorkerState,
    ui: UIState,
    progress: u32,
    after: WorkerState,
    uiAfter: UIState,
    next: UILoop,
)
    requires
        key_done(effect, state, ui, progress, after, uiAfter, next),
    ensures
        state.log@.is_prefix_of(after.log@),
        after.tasks@.len() <= state.tasks@.len() + 1,
        state.tasks@.len() <= after.tasks@.len() + 1,
        forall|i: int|
            0 <= i < state.tasks@.len() && i < after.tasks@.len() ==> #[trigger] after.tasks@[i]
                == state.tasks@[i],
{
    match effect {
        KeyEffect::AddTask => {
            assert forall|i: int| 0 <= i < state.tasks@.len() implies #[trigger] after.tasks@[i]
                == state.tasks@[i] by {
                assert(after.tasks@.drop_last()[i] == after.tasks@[i]);
            }
        },
        _ => {},
    }
}

/// The client is quit by `Ctrl` and its key whatever its state, after two presses at most.
pub proof fn law_quitting(quitState: QuitState, task_scroll: u16)
    requires
        !(quitState is Quit),
    ensures
        match key_effect(QUIT_KEY, true, quitState, task_scroll) {
            KeyEffect::Quitting(after, next) => next is Quit || match key_effect(
                QUIT_KEY,
                true,
                after,
                task_scroll,
            ) {
                KeyEffect::Quitting(_, then) => then is Quit,
                _ => false,
            },
            _ => false,
        },
{
}

// What keys are for

/// What each key is for: one and two scroll, unless the tasks are scrolled to the top already; three
/// adds a task and four removes one; the key to quit does so with `Ctrl` alone; all others do nothing.
pub proof fn law_keys(key: char, control: bool, quitState: QuitState, task_scroll: u16)
    ensures
        key_effect(key, control, quitState, task_scroll) is ScrollUp <==> key == '1' && task_scroll
            > 0,
        key_effect(key, control, quitState, task_scroll) is ScrollDown <==> key == '2',
        key_effect(key, control, quitState, task_scroll) is AddTask <==> key == '3',
        key_effect(key, control, quitState, task_scroll) is RemoveTask <==> key == '4',
        key_effect(key, control, quitState, task_scroll) is Quitting <==> (key == 'c' || key
            == 'C') && control,
{
}

/// The first press starts the client's quitting, the second makes it quit at once, and further ones
/// change nothing.
pub proof fn law_presses(quitState: QuitState, task_scroll: u16)
    ensures
        ({
            let effect = key_effect('c', true, quitState, task_scroll);
            &&& quitState is Running ==> (effect matches KeyEffect::Quitting(after, next)
                && after is Quitting && next is Quit)
            &&& quitState is Quitting ==> (effect matches KeyEffect::Quitting(after, next)
                && after is QuittingNow && next is Normal)
            &&& quitState is QuittingNow ==> (effect matches KeyEffect::Quitting(after, next)
                && after is QuittingNow && next is Quit)
        }),
{
}

/// Scrolling moves the tasks by one, and down undoes up. A task that is added is the last, and
/// removing takes it away again. What was done is drawn at once, and logged.
pub proof fn law_key_effects(
    effect: KeyEffect,
    state: WorkerState,
    ui: UIState,
    progress: u32,
    after: WorkerState,
    uiAfter: UIState,
    next: UILoop,
)
    requires
        key_done(effect, state, ui, progress, after, uiAfter, next),
        ui.task_scroll < u16::MAX,
    ensures
        effect is ScrollUp && ui.task_scroll > 0 ==> uiAfter.task_scroll + 1 == ui.task_scroll,
        effect is ScrollDown ==> uiAfter.task_scroll == ui.task_scroll + 1,
        !(effect is ScrollUp) && !(effect is ScrollDown) ==> uiAfter == ui,
        uiAfter == (UIState { task_scroll: uiAfter.task_scroll, ..ui }),
        effect is AddTask ==> after.tasks@.len() == state.tasks@.len() + 1
            && after.tasks@.last().progress == progress && after.tasks@.last().name@
            == next_task_name(state.tasks@.len()),
        effect is RemoveTask && state.tasks@.len() > 0 ==> after.tasks@.push(state.tasks@.last())
            == state.tasks@,
        effect is RemoveTask && state.tasks@.len() == 0 ==> after.tasks@.len() == 0,
        !(effect is AddTask) && !(effect is RemoveTask) ==> after.tasks@ == state.tasks@,
        !(effect is Quitting) ==> after.quitState == state.quitState,
        next is Force <==> effect is ScrollUp || effect is ScrollDown || effect is AddTask
            || effect is RemoveTask || (effect matches KeyEffect::Quitting(_, then)
            && then is Force),
        effect is Nothing ==> after == state && next is Normal,
        effect is ScrollUp ==> after.log@ == state.log@ + "scrolled up\n"@,
        effect is ScrollDown ==> after.log@ == state.log@ + "scrolled down\n"@,
        effect is AddTask ==> after.log@ == state.log@ + "added task\n"@,
        effect is RemoveTask ==> after.log@ == state.log@ + "removed task\n"@,
{
    if effect is RemoveTask && state.tasks@.len() > 0 {
        assert(state.tasks@.drop_last().push(state.tasks@.last()) == state.tasks@);
    }
}

/// Tasks that are added one after the other are called differently, by their number.
pub proof fn law_task_names(a: nat, b: nat)
    ensures
        next_task_name(a) == next_task_name(b) ==> a == b,
        next_task_name(a).skip(5) == digits(a + 1),
        next_task_name(a).take(5) == seq!['T', 'a', 's', 'k', ' '],
{
    reveal_strlit("Task ");
    assert(next_task_name(a).skip(5) == digits(a + 1));
    assert(next_task_name(b).skip(5) == digits(b + 1));
    assert(next_task_name(a).take(5) == seq!['T', 'a', 's', 'k', ' ']);
    if next_task_name(a) == next_task_name(b) {
        crate::number::law_digits_injective(a + 1, b + 1);
    }
}

/// When nothing happens the client sleeps, but for a look each tenth of a second.
pub proof fn law_idle(lastCheck: nat, now: nat)
    ensures
        idle_next(lastCheck, now) is Normal <==> now > lastCheck + 100000000,
        idle_next(lastCheck, now) is Normal || idle_next(lastCheck, now) is Sleep,
{
}

/// The screen is drawn whenever it must be, never on the way out or while the client sleeps, and else
/// when something differs from what was drawn, when nothing was, or after two seconds.
pub proof fn law_drawing(
    next: UILoop,
    drawn: Option<&WorkerState>,
    state: WorkerState,
    sinceDrawn: nat,
)
    ensures
        next is Force ==> should_draw(next, drawn, state, sinceDrawn),
        next is Sleep || next is Quit ==> !should_draw(next, drawn, state, sinceDrawn),
        next is Normal && drawn is None ==> should_draw(next, drawn, state, sinceDrawn),
        next is Normal && sinceDrawn > 2000000000 ==> should_draw(next, drawn, state, sinceDrawn),
        next is Normal && sinceDrawn <= 2000000000 && drawn is Some ==> (should_draw(
            next,
            drawn,
            state,
            sinceDrawn,
        ) <==> drawn->0.quitState != state.quitState || drawn->0.log@ != state.log@ || task_names(
            drawn->0.tasks@,
        ) != task_names(state.tasks@)),
{
}

} // verus!
