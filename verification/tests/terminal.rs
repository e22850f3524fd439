//! The screen, its keys and its layout.

use sheepit_client::global::{QuitState, Task, WorkerState, log};
use sheepit_client::screen::{
    Area, ScrollBar, TaskRow, ceiling_divide, clampScroll, insideOf, linesOf, logRows,
    renderIn, render_app, render_widgetScroll, screenRows, taskRows, wrapLine,
};
use sheepit_client::span::TimeSpan;
use sheepit_client::tui::{UIEvent, UILoop, UIState, addTask, poolInputs, shouldDraw};

fn at_millis(millis: u128) -> TimeSpan {
    TimeSpan::fromNanos(millis * 1_000_000).unwrap()
}

fn press(state: &mut WorkerState, ui: &mut UIState, key: char, control: bool) -> UILoop {
    poolInputs(state, ui, UIEvent::Press { key, control }, at_millis(0), 7)
}

fn area(x: u16, y: u16, width: u16, height: u16) -> Area {
    Area { x, y, width, height }
}

fn strings(list: &[&str]) -> Vec<String> {
    list.iter().map(|s| s.to_string()).collect()
}

#[test]
fn tasks_and_states_compare_by_what_is_shown() {
    let task = |name: &str, progress| Task { name: name.to_string(), progress };
    assert!(task("a", 1) == task("a", 2));
    assert!(task("a", 1) != task("b", 1));
    let mut a = WorkerState::new();
    let mut b = WorkerState::new();
    assert!(a == b && a.quitState == QuitState::Running && a.log.is_empty());
    addTask(&mut a, 1);
    assert!(a != b);
    addTask(&mut b, 2);
    assert!(a == b);
    log(&mut a, "x\n");
    assert!(a != b);
    log(&mut b, "x\n");
    b.quitState = QuitState::Quitting;
    assert!(a != b);
    assert_eq!(a.log, "x\n");
}

#[test]
fn quitting_takes_more_than_one_press() {
    let mut state = WorkerState::new();
    let mut ui = UIState::new(at_millis(0));
    assert_eq!(press(&mut state, &mut ui, 'c', false), UILoop::Normal);
    assert_eq!(state.quitState, QuitState::Running);
    assert_eq!(press(&mut state, &mut ui, 'C', true), UILoop::Quit);
    assert_eq!(state.quitState, QuitState::Quitting);
    assert_eq!(press(&mut state, &mut ui, 'c', true), UILoop::Normal);
    assert_eq!(state.quitState, QuitState::QuittingNow);
    assert_eq!(press(&mut state, &mut ui, 'c', true), UILoop::Quit);
    assert_eq!(state.quitState, QuitState::QuittingNow);
}

#[test]
fn keys_scroll_and_change_tasks() {
    let mut state = WorkerState::new();
    let mut ui = UIState::new(at_millis(0));
    assert_eq!(press(&mut state, &mut ui, '1', false), UILoop::Normal);
    assert_eq!(press(&mut state, &mut ui, '2', false), UILoop::Force);
    assert_eq!(ui.task_scroll, 1);
    assert_eq!(press(&mut state, &mut ui, '1', true), UILoop::Force);
    assert_eq!(ui.task_scroll, 0);
    assert_eq!(press(&mut state, &mut ui, '3', false), UILoop::Force);
    assert_eq!(press(&mut state, &mut ui, '3', false), UILoop::Force);
    assert_eq!(state.tasks.len(), 2);
    assert_eq!((state.tasks[1].name.as_str(), state.tasks[1].progress), ("Task 2", 7));
    assert_eq!(press(&mut state, &mut ui, '4', false), UILoop::Force);
    assert_eq!(press(&mut state, &mut ui, '4', false), UILoop::Force);
    assert_eq!(press(&mut state, &mut ui, '4', false), UILoop::Force);
    assert!(state.tasks.is_empty());
    assert_eq!(press(&mut state, &mut ui, 'x', false), UILoop::Normal);
    assert_eq!(
        state.log,
        "scrolled down\nscrolled up\nadded task\nadded task\nremoved task\nremoved task\nremoved task\n"
    );
}

#[test]
fn other_events() {
    let mut state = WorkerState::new();
    let mut ui = UIState::new(at_millis(1000));
    let mut on = |event, now| poolInputs(&mut state, &mut ui, event, at_millis(now), 0);
    assert_eq!(on(UIEvent::Idle, 1100), UILoop::Sleep);
    assert_eq!(on(UIEvent::Idle, 1101), UILoop::Normal);
    assert_eq!(on(UIEvent::Idle, 0), UILoop::Sleep);
    assert_eq!(on(UIEvent::Resize, 0), UILoop::Force);
    assert_eq!(on(UIEvent::Other, 0), UILoop::Normal);
}

#[test]
fn when_the_screen_is_drawn() {
    let state = WorkerState::new();
    let mut other = WorkerState::new();
    log(&mut other, "x");
    let zero = TimeSpan::zero();
    assert!(shouldDraw(UILoop::Force, Some(&state), &state, zero));
    assert!(shouldDraw(UILoop::Normal, None, &state, zero));
    assert!(shouldDraw(UILoop::Normal, Some(&other), &state, zero));
    assert!(!shouldDraw(UILoop::Normal, Some(&state), &state, TimeSpan::fromSecs(2)));
    assert!(shouldDraw(UILoop::Normal, Some(&state), &state, at_millis(2001)));
    assert!(!shouldDraw(UILoop::Sleep, None, &state, TimeSpan::fromSecs(9)));
    assert!(!shouldDraw(UILoop::Quit, None, &state, TimeSpan::fromSecs(9)));
}

#[test]
fn areas_and_scrolling() {
    assert_eq!(insideOf(area(0, 0, 80, 24)), area(1, 1, 78, 22));
    assert_eq!(insideOf(area(3, 3, 1, 24)), area(0, 0, 0, 0));
    assert_eq!(insideOf(area(u16::MAX, 0, 2, 2)), area(u16::MAX, 1, 0, 0));
    assert_eq!(clampScroll(5, 3), 0);
    assert_eq!(clampScroll(5, 14), 5);
    assert_eq!(clampScroll(6, 14), 5);
    assert_eq!(clampScroll(clampScroll(9, 14), 14), 5);
    assert_eq!(clampScroll(0, 0), 0);
    let plan = render_widgetScroll(area(0, 0, 10, 4), 4, 9);
    assert_eq!((plan.content, plan.bar), (area(0, 0, 10, 4), None));
    let plan = render_widgetScroll(area(0, 0, 10, 4), 7, 2);
    assert_eq!(plan.content, area(0, 0, 9, 4));
    assert_eq!(plan.bar, Some(ScrollBar { length: 3, position: 2 }));
    assert_eq!(ceiling_divide(10, 3), 4);
    assert_eq!(ceiling_divide(9, 3), 3);
    assert_eq!(ceiling_divide(0, 3), 0);
    assert_eq!(ceiling_divide(7, 0), 7);
    assert_eq!(ceiling_divide(7, 1), 7);
}

#[test]
fn rows_of_tasks() {
    let rows = taskRows(5, 3, area(2, 4, 20, 10)).unwrap();
    assert_eq!(
        rows,
        vec![
            TaskRow { task: 3, area: area(2, 4, 19, 1) },
            TaskRow { task: 4, area: area(2, 5, 19, 1) },
        ]
    );
    assert_eq!(taskRows(50, 0, area(0, 0, 5, 10)).unwrap().len(), 10);
    assert!(taskRows(3, 3, area(0, 0, 0, 10)).unwrap().is_empty());
    assert!(taskRows(3, 0, area(0, 0, 0, 10)).is_none());
    assert!(taskRows(3, 0, area(0, u16::MAX, 5, 10)).is_none());
}

#[test]
fn lines_of_the_log() {
    assert_eq!(linesOf(""), strings(&[]));
    assert_eq!(linesOf("\n"), strings(&[""]));
    assert_eq!(linesOf("a\r\n\nb\rc\nd\r"), strings(&["a", "", "b\rc", "d\r"]));
    for text in ["", "\n", "a", "a\n", "\r\n", "a\r\r\nb\n\n", "x\r"] {
        let expected: Vec<String> = text.lines().map(|l| l.to_string()).collect();
        assert_eq!(linesOf(text), expected);
    }
}

#[test]
fn lines_are_wrapped() {
    assert_eq!(wrapLine("", 0), Some(strings(&[""])));
    assert_eq!(wrapLine("abcdefg", 3), Some(strings(&["abc", "def", "g"])));
    assert_eq!(wrapLine("abc", 3), Some(strings(&["abc"])));
    assert_eq!(wrapLine("abc", 0), None);
    assert_eq!(wrapLine("\u{e4}b", 3), Some(strings(&["\u{e4}b"])));
    assert_eq!(wrapLine("a\u{e4}b", 2), None);
    assert_eq!(wrapLine("\u{e4}\u{e4}", 2), Some(strings(&["\u{e4}", "\u{e4}"])));
    assert_eq!(logRows("abcd\n\nef\n", 3), Some(strings(&["abc", "d", "", "ef"])));
    assert_eq!(logRows("ab\n\u{20ac}\n", 2), None);
    assert_eq!(wrapLine("\u{1f40d}x", 4), Some(strings(&["\u{1f40d}", "x"])));
}

#[test]
fn rows_that_lines_take() {
    assert_eq!(screenRows(&strings(&["abc", "", "abcd"]), 3), Some(3));
    // Wide characters take two cells each.
    assert_eq!(screenRows(&strings(&["\u{6f22}\u{5b57}"]), 3), Some(2));
    assert_eq!(screenRows(&strings(&["abc"]), 1), Some(3));
    assert_eq!(screenRows(&vec![], 0), Some(0));
}

#[test]
fn a_whole_screen() {
    let mut state = WorkerState::new();
    for _ in 0..12 {
        addTask(&mut state, 0);
    }
    log(&mut state, "hello\nworld\n");
    let mut ui = UIState::new(at_millis(0));
    ui.task_scroll = 9;
    let size = area(0, 0, 40, 14);
    let plan = renderIn(&state, &mut ui, size, area(1, 1, 38, 10), area(1, 11, 38, 2)).unwrap();
    assert_eq!((ui.spinId, ui.task_scroll), (1, 3));
    assert_eq!(plan.border, size);
    assert_eq!(plan.title, " Sheepit Client (press 'Ctrl + C' to quit) ");
    assert_eq!(plan.bottom, "State: Running / ");
    assert_eq!(plan.rows.len(), 9);
    assert_eq!(plan.rows[0], TaskRow { task: 3, area: area(2, 1, 36, 1) });
    assert_eq!(plan.tasks.bar, Some(ScrollBar { length: 14, position: 3 }));
    assert_eq!(plan.logTitle, area(1, 11, 38, 2));
    assert_eq!(plan.lines, strings(&["hello", "world"]));
    assert_eq!(plan.firstLine, 1);
    assert_eq!(plan.log.area, area(2, 12, 37, 1));
    assert_eq!(plan.log.bar, Some(ScrollBar { length: 1, position: 1 }));
}

#[test]
fn the_spinner_turns() {
    let mut state = WorkerState::new();
    let mut ui = UIState::new(at_millis(0));
    let mut shown = Vec::new();
    for quit in [QuitState::Running, QuitState::Quitting, QuitState::QuittingNow, QuitState::Running] {
        state.quitState = quit;
        let plan = render_app(&state, &mut ui, area(0, 0, 40, 20)).unwrap();
        shown.push(plan.bottom);
    }
    assert_eq!(
        shown,
        strings(&[
            "State: Running / ",
            "State: Quitting after job. (quit again to cancel job) - ",
            "State: Quitting now... \\ ",
            "State: Running | ",
        ])
    );
}

#[test]
fn the_screen_is_split() {
    let mut state = WorkerState::new();
    addTask(&mut state, 0);
    log(&mut state, "one line\n");
    let mut ui = UIState::new(at_millis(0));
    let plan = render_app(&state, &mut ui, area(0, 0, 40, 30)).unwrap();
    assert_eq!(plan.rows[0].area, area(2, 1, 36, 1));
    assert_eq!(plan.tasks.area, area(2, 1, 37, 10));
    assert_eq!(plan.logTitle, area(1, 11, 38, 18));
    assert!(render_app(&state, &mut ui, area(0, 0, 1, 1)).is_none());
}

#[test]
fn a_low_screen_is_the_tasks_alone() {
    let mut state = WorkerState::new();
    addTask(&mut state, 0);
    log(&mut state, "one line\n");
    let mut ui = UIState::new(at_millis(0));
    for (height, tasks, rest) in [(2, 0, 0), (3, 1, 0), (11, 9, 0), (12, 10, 0), (13, 10, 1), (14, 10, 2)] {
        let plan = render_app(&state, &mut ui, area(5, 7, 40, height)).unwrap();
        assert_eq!(plan.tasks.area, area(7, 8, 37, tasks));
        assert_eq!(plan.logTitle, area(6, 8 + tasks, 38, rest));
    }
}

#[test]
fn a_screen_at_the_last_row() {
    let state = WorkerState::new();
    let mut ui = UIState::new(at_millis(0));
    let plan = render_app(&state, &mut ui, area(0, u16::MAX - 21, 40, 30)).unwrap();
    assert_eq!(plan.tasks.area, area(2, u16::MAX - 20, 37, 10));
    assert_eq!(plan.logTitle, area(1, u16::MAX - 10, 38, 10));
    assert!(render_app(&state, &mut ui, area(0, u16::MAX - 5, 40, 30)).is_none());
}
