//! The layout of the client's screen: where everything goes, and how the log is wrapped.

use vstd::prelude::*;

use crate::global::{QuitState, WorkerState};
use crate::outside::{splitFrame, textWidth, text_width};
use crate::text::{fromChars, glue3, pieces, split, toChars, views};
use crate::tui::{MAX_TASKS, UIState};

verus! {

// Areas

/// A part of the screen, in cells.
#[derive(Debug, Clone, Copy, PartialEq, Eq, Structural)]
pub struct Area {
    pub x: u16,
    pub y: u16,
    pub width: u16,
    pub height: u16,
}

/// What is inside of an area's border; nothing where there is no room for one.
pub open spec fn inside(area: Area) -> Area {
    if area.width < 2 || area.height < 2 {
        Area { x: 0, y: 0, width: 0, height: 0 }
    } else {
        Area {
            x: if area.x < u16::MAX {
                (area.x + 1) as u16
            } else {
                area.x
            },
            y: if area.y < u16::MAX {
                (area.y + 1) as u16
            } else {
                area.y
            },
            width: (area.width - 2) as u16,
            height: (area.height - 2) as u16,
        }
    }
}

/// What is inside of an area's border.
pub fn insideOf(area: Area) -> (r: Area)
    ensures
        r == inside(area),
{
    if area.width < 2 || area.height < 2 {
        Area { x: 0, y: 0, width: 0, height: 0 }
    } else {
        Area {
            x: area.x.saturating_add(1),
            y: area.y.saturating_add(1),
            width: area.width - 2,
            height: area.height - 2,
        }
    }
}

/// An area split in two, one above the other: the upper part has the given height, or all that
/// there is, and the lower part has the rest.
pub open spec fn split_in(area: Area, length: u16) -> (Area, Area) {
    let end = if area.y + area.height < u16::MAX {
        area.y + area.height
    } else {
        u16::MAX as int
    };
    let height = if length < end - area.y {
        length as int
    } else {
        end - area.y
    };
    (
        Area { height: height as u16, ..area },
        Area { y: (area.y + height) as u16, height: (end - area.y - height) as u16, ..area },
    )
}

// Scrolling

/// How far the tasks are scrolled, at most: so that the last rows are in sight.
pub open spec fn scroll_limit(tasks: nat) -> int {
    if tasks >= MAX_TASKS - 1 {
        tasks - (MAX_TASKS - 1)
    } else {
        0
    }
}

/// How far the tasks are scrolled, with the limit kept.
pub open spec fn clamped_scroll(scroll: u16, tasks: nat) -> u16 {
    if scroll > scroll_limit(tasks) {
        scroll_limit(tasks) as u16
    } else {
        scroll
    }
}

/// How far the tasks are scrolled, with the limit kept.
pub fn clampScroll(scroll: u16, tasks: usize) -> (r: u16)
    requires
        scroll + MAX_TASKS <= u16::MAX,
        tasks <= i32::MAX,
    ensures
        r == clamped_scroll(scroll, tasks as nat),
{
    let scrollEnd = scroll + MAX_TASKS - 1;
    let off = tasks as i32 - scrollEnd as i32;
    if off < 0 {
        let moved: i32 = scroll as i32 + off;
        if moved > 0 {
            moved as u16
        } else {
            0
        }
    } else {
        scroll
    }
}

/// Keeping the limit twice is keeping it once, and what is scrolled one further than the limit
/// goes back to it.
pub proof fn law_clamped_scroll(scroll: u16, tasks: nat)
    ensures
        clamped_scroll(clamped_scroll(scroll, tasks), tasks) == clamped_scroll(scroll, tasks),
        clamped_scroll(scroll, tasks) <= scroll,
        clamped_scroll(scroll, tasks) <= scroll_limit(tasks),
        scroll == scroll_limit(tasks) + 1 ==> clamped_scroll(scroll, tasks) == scroll - 1,
{
}

/// An area with a scroll bar at its side, where there is more than it has room for.
#[derive(Debug, Clone, Copy, PartialEq, Eq, Structural)]
pub struct ScrollPlan {
    pub area: Area,
    /// What is left for the contents.
    pub content: Area,
    pub bar: Option<ScrollBar>,
}

/// A scroll bar: how far it reaches, and where it stands.
#[derive(Debug, Clone, Copy, PartialEq, Eq, Structural)]
pub struct ScrollBar {
    pub length: usize,
    pub position: usize,
}

/// How contents of the given height are shown in an area.
pub open spec fn scroll_plan(area: Area, height: nat, scroll: usize) -> ScrollPlan {
    if height > area.height {
        ScrollPlan {
            area,
            content: Area { width: (area.width - 1) as u16, ..area },
            bar: Some(
                ScrollBar { length: (height - area.height) as usize, position: scroll },
            ),
        }
    } else {
        ScrollPlan { area, content: area, bar: None }
    }
}

/// How contents of the given height are shown in an area.
pub fn render_widgetScroll(area: Area, height: usize, scroll: usize) -> (r: ScrollPlan)
    requires
        height > area.height ==> area.width > 0,
        height <= i64::MAX,
    ensures
        r == scroll_plan(area, height as nat, scroll),
{
    if height > area.height as usize {
        ScrollPlan {
            area,
            content: Area { width: area.width - 1, ..area },
            bar: Some(ScrollBar { length: height - area.height as usize, position: scroll }),
        }
    } else {
        ScrollPlan { area, content: area, bar: None }
    }
}

/// A quotient, rounded up; the dividend itself where the divisor is none or one.
pub open spec fn ceiling(dividend: nat, divisor: nat) -> nat {
    if divisor <= 1 {
        dividend
    } else {
        (dividend + divisor - 1) as nat / divisor
    }
}

/// A quotient, rounded up.
pub fn ceiling_divide(dividend: usize, divisor: usize) -> (r: usize)
    requires
        divisor > 1 ==> dividend + divisor <= usize::MAX,
    ensures
        r == ceiling(dividend as nat, divisor as nat),
{
    if divisor <= 1 {
        return dividend;
    }
    (dividend + divisor - 1) / divisor
}

/// The rounded quotient is the least number of rows of the given width that hold the dividend.
pub proof fn law_ceiling(dividend: nat, divisor: nat)
    requires
        divisor >= 1,
    ensures
        ceiling(dividend, divisor) * divisor >= dividend,
        dividend > 0 ==> (ceiling(dividend, divisor) - 1) * divisor < dividend,
{
    if divisor > 1 {
        let sum = (dividend + divisor - 1) as nat;
        let q = sum / divisor;
        assert(q * divisor <= sum < (q + 1) * divisor) by (nonlinear_arith)
            requires
                q == sum / divisor,
                divisor > 1,
        ;
        assert((q + 1) * divisor == q * divisor + divisor) by (nonlinear_arith);
        assert((q - 1) * divisor == q * divisor - divisor) by (nonlinear_arith);
    } else {
        assert(dividend * 1 == dividend);
    }
}

// Tasks

/// A row of the screen with a task.
#[derive(Debug, Clone, Copy, PartialEq, Eq, Structural)]
pub struct TaskRow {
    /// Which of the tasks.
    pub task: usize,
    pub area: Area,
}

/// How many tasks are in sight.
pub open spec fn rows_in_sight(tasks: nat, scroll: u16, height: u16) -> nat {
    if tasks <= scroll {
        0
    } else if tasks - scroll <= height {
        (tasks - scroll) as nat
    } else {
        height as nat
    }
}

/// The rows with the tasks that are in sight, from the top of an area on.
pub open spec fn task_rows(tasks: nat, scroll: u16, area: Area) -> Seq<TaskRow> {
    Seq::new(
        rows_in_sight(tasks, scroll, area.height),
        |i: int|
            TaskRow {
                task: (scroll + i) as usize,
                area: Area {
                    x: area.x,
                    y: (area.y + i) as u16,
                    width: (area.width - 1) as u16,
                    height: 1,
                },
            },
    )
}

/// Whether there is room for the rows with tasks.
pub open spec fn rows_fit(tasks: nat, scroll: u16, area: Area) -> bool {
    let rows = rows_in_sight(tasks, scroll, area.height);
    rows > 0 ==> area.width > 0 && area.y + rows <= u16::MAX + 1
}

/// The rows with the tasks that are in sight.
pub fn taskRows(tasks: usize, scroll: u16, area: Area) -> (r: Option<Vec<TaskRow>>)
    ensures
        match r {
            Some(rows) => rows_fit(tasks as nat, scroll, area) && rows@ == task_rows(
                tasks as nat,
                scroll,
                area,
            ),
            None => !rows_fit(tasks as nat, scroll, area),
        },
{
    let mut rows: Vec<TaskRow> = Vec::new();
    let mut i: u16 = 0;
    let ghost all = task_rows(tasks as nat, scroll, area);
    while i < area.height && (scroll as usize) < tasks && tasks - scroll as usize > i as usize
        invariant
            i <= all.len(),
            all == task_rows(tasks as nat, scroll, area),
            rows@ == all.take(i as int),
            i > 0 ==> area.width > 0 && area.y + i <= u16::MAX + 1,
        decreases area.height - i,
    {
        if area.width == 0 || i > u16::MAX - area.y {
            return None;
        }
        let row = TaskRow {
            task: scroll as usize + i as usize,
            area: Area { x: area.x, y: area.y + i, width: area.width - 1, height: 1 },
        };
        assert(all[i as int] == row);
        rows.push(row);
        assert(all.take(i as int + 1) == all.take(i as int).push(row));
        i += 1;
    }
    assert(all.take(i as int) == all);
    Some(rows)
}

/// The rows show one task each, in order and from the one that is scrolled to, one row below the
/// other and inside of their area.
pub proof fn law_task_rows(tasks: nat, scroll: u16, area: Area, i: int)
    requires
        tasks <= usize::MAX,
        rows_fit(tasks, scroll, area),
        0 <= i < task_rows(tasks, scroll, area).len(),
    ensures
        ({
            let row = task_rows(tasks, scroll, area)[i];
            &&& row.task == scroll + i
            &&& row.task < tasks
            &&& row.area.x == area.x
            &&& row.area.y == area.y + i
            &&& row.area.y < area.y + area.height
            &&& row.area.width < area.width
            &&& row.area.height == 1
        }),
{
}

// The log

/// A line without the carriage return at its end.
pub open spec fn without_return(s: Seq<char>) -> Seq<char> {
    if s.len() > 0 && s.last() == '\r' {
        s.drop_last()
    } else {
        s
    }
}

/// The lines of a text: what stands before each line feed, without a carriage return right
/// before that, and what is left at the end.
pub open spec fn lines_of(s: Seq<char>) -> Seq<Seq<char>> {
    let parts = pieces(s, '\n');
    let whole = parts.drop_last().map_values(|p: Seq<char>| without_return(p));
    if parts.last().len() > 0 {
        whole.push(parts.last())
    } else {
        whole
    }
}

fn withoutReturn(s: &str) -> (r: String)
    ensures
        r@ == without_return(s@),
{
    let chars = toChars(s);
    let n = chars.len();
    if n > 0 && chars[n - 1] == '\r' {
        assert(s@.drop_last() == chars@.subrange(0, n as int - 1));
        fromChars(&chars, 0, n - 1)
    } else {
        s.to_owned()
    }
}

/// The lines of a text.
pub fn linesOf(s: &str) -> (r: Vec<String>)
    ensures
        views(r@) == lines_of(s@),
{
    proof {
        crate::text::lemma_pieces(s@, '\n');
    }
    let parts = split(s, '\n');
    let ghost texts = pieces(s@, '\n');
    let ghost whole = texts.drop_last().map_values(|p: Seq<char>| without_return(p));
    let n = parts.len();
    assert(n == texts.len());
    let mut lines: Vec<String> = Vec::new();
    let mut i: usize = 0;
    while i < n - 1
        invariant
            0 < n == parts@.len(),
            i <= n - 1,
            views(parts@) == texts,
            whole == texts.drop_last().map_values(|p: Seq<char>| without_return(p)),
            views(lines@) == whole.take(i as int),
        decreases n - i,
    {
        let ghost before = views(lines@);
        let line = withoutReturn(parts[i].as_str());
        let ghost made = line@;
        assert(texts[i as int] == parts@[i as int]@);
        assert(whole[i as int] == made);
        lines.push(line);
        assert(views(lines@) == before.push(made));
        assert(whole.take(i as int + 1) == before.push(made));
        i += 1;
    }
    assert(whole.take(n as int - 1) == whole);
    assert(texts.last() == parts@[n as int - 1]@);
    let ghost before = views(lines@);
    if !parts[n - 1].as_str().is_empty() {
        lines.push(parts[n - 1].clone());
        assert(views(lines@) == before.push(texts.last()));
    }
    lines
}

/// How many bytes a character takes.
pub open spec fn char_bytes(c: char) -> nat {
    let v = c as u32;
    if v < 0x80 {
        1
    } else if v < 0x800 {
        2
    } else if v < 0x10000 {
        3
    } else {
        4
    }
}

fn charBytes(c: char) -> (r: usize)
    ensures
        r == char_bytes(c),
{
    let v = c as u32;
    if v < 0x80 {
        1
    } else if v < 0x800 {
        2
    } else if v < 0x10000 {
        3
    } else {
        4
    }
}

/// How many of a text's first characters take up the given number of bytes, or all of the text
/// where it has no more; nothing where the bytes end inside of a character.
pub open spec fn cut(s: Seq<char>, bytes: nat) -> Option<nat>
    decreases s.len(),
{
    if bytes == 0 || s.len() == 0 {
        Some(0)
    } else if char_bytes(s[0]) > bytes {
        None
    } else {
        match cut(s.skip(1), (bytes - char_bytes(s[0])) as nat) {
            Some(n) => Some(n + 1),
            None => None,
        }
    }
}

/// How many bytes a text takes.
pub open spec fn text_bytes(s: Seq<char>) -> nat
    decreases s.len(),
{
    if s.len() == 0 {
        0
    } else {
        char_bytes(s[0]) + text_bytes(s.skip(1))
    }
}

/// A text in pieces of the given number of bytes, and what is left; nothing where a piece would
/// end inside of a character, or where pieces have no bytes.
pub open spec fn wrapped(s: Seq<char>, width: nat) -> Option<Seq<Seq<char>>>
    decreases s.len(),
{
    if s.len() == 0 {
        Some(Seq::empty())
    } else {
        match cut(s, width) {
            Some(n) => if 0 < n <= s.len() {
                match wrapped(s.skip(n as int), width) {
                    Some(more) => Some(seq![s.take(n as int)] + more),
                    None => None,
                }
            } else {
                None
            },
            None => None,
        }
    }
}

/// The rows that a line of the log takes; one that is empty takes one all the same.
pub open spec fn wrapped_line(line: Seq<char>, width: nat) -> Option<Seq<Seq<char>>> {
    if line.len() == 0 {
        Some(seq![line])
    } else {
        wrapped(line, width)
    }
}

proof fn lemma_cut(s: Seq<char>, bytes: nat)
    ensures
        cut(s, bytes) matches Some(n) ==> {
            &&& n <= s.len()
            &&& text_bytes(s.take(n as int)) <= bytes
            &&& s.len() > 0 && bytes > 0 ==> n > 0
        },
    decreases s.len(),
{
    if bytes > 0 && s.len() > 0 && char_bytes(s[0]) <= bytes {
        let rest = (bytes - char_bytes(s[0])) as nat;
        lemma_cut(s.skip(1), rest);
        if let Some(n) = cut(s.skip(1), rest) {
            assert(s.take(n as int + 1).skip(1) == s.skip(1).take(n as int));
            assert(s.take(n as int + 1)[0] == s[0]);
        }
    } else {
        assert(s.take(0).len() == 0);
    }
}

/// Where the next cut falls, behind `start`.
fn nextCut(chars: &Vec<char>, start: usize, width: usize) -> (r: Option<usize>)
    requires
        start <= chars@.len(),
    ensures
        match r {
            Some(end) => start <= end <= chars@.len() && cut(
                chars@.skip(start as int),
                width as nat,
            ) == Some((end - start) as nat),
            None => cut(chars@.skip(start as int), width as nat) is None,
        },
{
    let mut end: usize = start;
    let mut left: usize = width;
    let ghost whole = cut(chars@.skip(start as int), width as nat);
    while left > 0 && end < chars.len()
        invariant
            start <= end <= chars@.len(),
            whole == cut(chars@.skip(start as int), width as nat),
            whole == match cut(chars@.skip(end as int), left as nat) {
                Some(n) => Some((end - start + n) as nat),
                None => None,
            },
        decreases chars@.len() - end,
    {
        assert(chars@.skip(end as int)[0] == chars@[end as int]);
        assert(chars@.skip(end as int).skip(1) == chars@.skip(end as int + 1));
        let bytes = charBytes(chars[end]);
        if bytes > left {
            return None;
        }
        left -= bytes;
        end += 1;
    }
    Some(end)
}

/// The rows that a line of the log takes.
pub fn wrapLine(line: &str, width: usize) -> (r: Option<Vec<String>>)
    ensures
        match r {
            Some(rows) => wrapped_line(line@, width as nat) == Some(views(rows@)),
            None => wrapped_line(line@, width as nat) is None,
        },
{
    let chars = toChars(line);
    let mut rows: Vec<String> = Vec::new();
    if chars.len() == 0 {
        rows.push(line.to_owned());
        assert(views(rows@) == seq![line@]);
        return Some(rows);
    }
    let mut start: usize = 0;
    assert(chars@.skip(0) == chars@);
    assert(wrapped(chars@, width as nat) matches Some(more) ==> views(rows@) + more == more);
    while start < chars.len()
        invariant
            start <= chars@.len(),
            chars@ == line@,
            wrapped(line@, width as nat) == match wrapped(
                chars@.skip(start as int),
                width as nat,
            ) {
                Some(more) => Some(views(rows@) + more),
                None => None,
            },
        decreases chars@.len() - start,
    {
        let ghost rest = chars@.skip(start as int);
        match nextCut(&chars, start, width) {
            Some(end) => {
                if end == start {
                    return None;
                }
                let row = fromChars(&chars, start, end);
                let ghost n = end - start;
                let ghost before = views(rows@);
                let ghost made = row@;
                assert(rest.take(n) == made);
                assert(rest.skip(n) == chars@.skip(end as int));
                rows.push(row);
                assert(views(rows@) == before.push(made));
                proof {
                    if let Some(more) = wrapped(chars@.skip(end as int), width as nat) {
                        assert(before + (seq![made] + more) == before.push(made) + more);
                    }
                }
                start = end;
            },
            None => {
                return None;
            },
        }
    }
    assert(views(rows@) + Seq::<Seq<char>>::empty() == views(rows@));
    Some(rows)
}

/// The rows that the lines of the log take, in order.
pub open spec fn all_wrapped(lines: Seq<Seq<char>>, width: nat) -> Option<Seq<Seq<char>>>
    decreases lines.len(),
{
    if lines.len() == 0 {
        Some(Seq::empty())
    } else {
        match (all_wrapped(lines.drop_last(), width), wrapped_line(lines.last(), width)) {
            (Some(before), Some(rows)) => Some(before + rows),
            _ => None,
        }
    }
}

proof fn lemma_all_wrapped_fails(lines: Seq<Seq<char>>, width: nat, i: int)
    requires
        0 <= i <= lines.len(),
        all_wrapped(lines.take(i), width) is None,
    ensures
        all_wrapped(lines, width) is None,
    decreases lines.len(),
{
    if i < lines.len() {
        assert(lines.drop_last().take(i) == lines.take(i));
        lemma_all_wrapped_fails(lines.drop_last(), width, i);
    } else {
        assert(lines.take(i) == lines);
    }
}

/// The rows that the log takes.
pub fn logRows(log: &str, width: usize) -> (r: Option<Vec<String>>)
    ensures
        match r {
            Some(rows) => all_wrapped(lines_of(log@), width as nat) == Some(views(rows@)),
            None => all_wrapped(lines_of(log@), width as nat) is None,
        },
{
    let lines = linesOf(log);
    let ghost texts = lines_of(log@);
    let mut rows: Vec<String> = Vec::new();
    let mut i: usize = 0;
    assert(views(rows@) == Seq::<Seq<char>>::empty());
    while i < lines.len()
        invariant
            i <= lines@.len(),
            texts == lines_of(log@),
            views(lines@) == texts,
            all_wrapped(texts.take(i as int), width as nat) == Some(views(rows@)),
        decreases lines@.len() - i,
    {
        assert(texts.take(i as int + 1).drop_last() == texts.take(i as int));
        assert(texts.take(i as int + 1).last() == lines@[i as int]@);
        match wrapLine(lines[i].as_str(), width) {
            Some(more) => {
                let mut more = more;
                let ghost before = views(rows@);
                let ghost added = views(more@);
                rows.append(&mut more);
                assert(views(rows@) == before + added);
            },
            None => {
                proof {
                    lemma_all_wrapped_fails(texts, width as nat, i as int + 1);
                }
                return None;
            },
        }
        i += 1;
    }
    assert(texts.take(texts.len() as int) == texts);
    Some(rows)
}

/// The pieces of a text, one behind the other.
pub open spec fn put_together(parts: Seq<Seq<char>>) -> Seq<char>
    decreases parts.len(),
{
    if parts.len() == 0 {
        Seq::empty()
    } else {
        parts[0] + put_together(parts.skip(1))
    }
}

/// Wrapping loses nothing: the rows of a line, one behind the other, are the line, and none takes
/// more bytes than there is room for.
pub proof fn law_wrapping_keeps_text(line: Seq<char>, width: nat)
    ensures
        wrapped_line(line, width) matches Some(rows) ==> {
            &&& put_together(rows) == line
            &&& forall|i: int| 0 <= i < rows.len() ==> text_bytes(#[trigger] rows[i]) <= width
        },
{
    if line.len() == 0 {
        reveal_with_fuel(put_together, 2);
        assert(seq![line].skip(1).len() == 0);
        assert(put_together(seq![line]) == line);
    } else {
        lemma_wrapped(line, width);
    }
}

proof fn lemma_wrapped(s: Seq<char>, width: nat)
    ensures
        wrapped(s, width) matches Some(rows) ==> {
            &&& put_together(rows) == s
            &&& forall|i: int| 0 <= i < rows.len() ==> text_bytes(#[trigger] rows[i]) <= width
        },
    decreases s.len(),
{
    if s.len() > 0 {
        lemma_cut(s, width);
        if let Some(n) = cut(s, width) {
            if 0 < n <= s.len() {
                let rest = s.skip(n as int);
                lemma_wrapped(rest, width);
                if let Some(more) = wrapped(rest, width) {
                    let rows = seq![s.take(n as int)] + more;
                    assert(rows.skip(1) == more);
                    assert(s.take(n as int) + rest == s);
                    assert forall|i: int| 0 <= i < rows.len() implies text_bytes(
                        #[trigger] rows[i],
                    ) <= width by {
                        if i > 0 {
                            assert(rows[i] == more[i - 1]);
                        }
                    }
                }
            }
        }
    } else {
        assert(put_together(Seq::empty()) == s);
    }
}

/// A line of ASCII can be wrapped to any width but none.
pub proof fn law_ascii_wraps(line: Seq<char>, width: nat)
    requires
        forall|i: int| 0 <= i < line.len() ==> (#[trigger] line[i] as u32) < 0x80,
        width > 0,
    ensures
        wrapped_line(line, width) is Some,
{
    if line.len() > 0 {
        lemma_ascii_wrapped(line, width);
    }
}

proof fn lemma_ascii_cut(s: Seq<char>, bytes: nat)
    requires
        forall|i: int| 0 <= i < s.len() ==> (#[trigger] s[i] as u32) < 0x80,
    ensures
        cut(s, bytes) is Some,
    decreases s.len(),
{
    if bytes > 0 && s.len() > 0 {
        assert(char_bytes(s[0]) == 1);
        assert forall|i: int| 0 <= i < s.skip(1).len() implies (#[trigger] s.skip(1)[i] as u32)
            < 0x80 by {
            assert(s.skip(1)[i] == s[i + 1]);
        }
        lemma_ascii_cut(s.skip(1), (bytes - 1) as nat);
    }
}

proof fn lemma_ascii_wrapped(s: Seq<char>, width: nat)
    requires
        forall|i: int| 0 <= i < s.len() ==> (#[trigger] s[i] as u32) < 0x80,
        width > 0,
    ensures
        wrapped(s, width) is Some,
    decreases s.len(),
{
    if s.len() > 0 {
        lemma_ascii_cut(s, width);
        lemma_cut(s, width);
        let n = cut(s, width)->0 as int;
        let rest = s.skip(n);
        assert forall|i: int| 0 <= i < rest.len() implies (#[trigger] rest[i] as u32) < 0x80 by {
            assert(rest[i] == s[i + n]);
        }
        lemma_ascii_wrapped(rest, width);
    }
}

/// How many rows of the given width some lines take on the screen.
pub open spec fn screen_rows(lines: Seq<Seq<char>>, width: nat) -> nat
    decreases lines.len(),
{
    if lines.len() == 0 {
        0
    } else {
        screen_rows(lines.drop_last(), width) + ceiling(text_width(lines.last()), width)
    }
}

/// Whether the rows that some lines take can be counted.
pub open spec fn rows_countable(lines: Seq<Seq<char>>, width: nat) -> bool {
    &&& forall|i: int|
        0 <= i < lines.len() ==> width > 1 ==> text_width(#[trigger] lines[i]) + width
            <= usize::MAX
    &&& screen_rows(lines, width) <= usize::MAX
}

proof fn lemma_screen_rows_grow(lines: Seq<Seq<char>>, width: nat, i: int)
    requires
        0 <= i <= lines.len(),
    ensures
        screen_rows(lines.take(i), width) <= screen_rows(lines, width),
    decreases lines.len(),
{
    if i < lines.len() {
        lemma_screen_rows_grow(lines.drop_last(), width, i);
        assert(lines.drop_last().take(i) == lines.take(i));
    } else {
        assert(lines.take(i) == lines);
    }
}

/// How many rows of the given width some lines take on the screen.
pub fn screenRows(lines: &Vec<String>, width: usize) -> (r: Option<usize>)
    ensures
        match r {
            Some(count) => rows_countable(views(lines@), width as nat) && count == screen_rows(
                views(lines@),
                width as nat,
            ),
            None => !rows_countable(views(lines@), width as nat),
        },
{
    let ghost texts = views(lines@);
    let mut count: usize = 0;
    let mut i: usize = 0;
    while i < lines.len()
        invariant
            i <= lines@.len(),
            texts == views(lines@),
            count == screen_rows(texts.take(i as int), width as nat),
            forall|k: int|
                0 <= k < i ==> width > 1 ==> text_width(#[trigger] texts[k]) + width <= usize::MAX,
        decreases lines@.len() - i,
    {
        assert(texts[i as int] == lines@[i as int]@);
        assert(texts.take(i as int + 1).drop_last() == texts.take(i as int));
        let cells = textWidth(lines[i].as_str());
        if width > 1 && cells > usize::MAX - width {
            return None;
        }
        match count.checked_add(ceiling_divide(cells, width)) {
            Some(sum) => {
                count = sum;
            },
            None => {
                proof {
                    lemma_screen_rows_grow(texts, width as nat, i as int + 1);
                }
                return None;
            },
        }
        i += 1;
    }
    assert(texts.take(texts.len() as int) == texts);
    Some(count)
}

// The whole screen

/// What the user is told of the client's state.
pub open spec fn state_text(quitState: QuitState) -> Seq<char> {
    match quitState {
        QuitState::Running => "Running"@,
        QuitState::Quitting => "Quitting after job. (quit again to cancel job)"@,
        _ => "Quitting now..."@,
    }
}

fn stateText(quitState: QuitState) -> (r: String)
    ensures
        r@ == state_text(quitState),
{
    match quitState {
        QuitState::Running => "Running".to_owned(),
        QuitState::Quitting => "Quitting after job. (quit again to cancel job)".to_owned(),
        _ => "Quitting now...".to_owned(),
    }
}

/// What spins, one character after the other.
pub open spec fn spinner(spinId: int) -> char {
    if spinId == 0 {
        '|'
    } else if spinId == 1 {
        '/'
    } else if spinId == 2 {
        '-'
    } else {
        '\\'
    }
}

/// What is drawn.
#[derive(Debug)]
pub struct FramePlan {
    /// The border, with the two texts in it.
    pub border: Area,
    pub title: String,
    pub bottom: String,
    /// The tasks in sight, and the bar beside them.
    pub rows: Vec<TaskRow>,
    pub tasks: ScrollPlan,
    /// The line above the log.
    pub logTitle: Area,
    /// The log, from which row on it is shown, and the bar beside it.
    pub lines: Vec<String>,
    pub firstLine: u16,
    pub log: ScrollPlan,
}

/// The area for the tasks, once a column is left free.
pub open spec fn task_area(top: Area) -> Area {
    Area { x: (top.x + 1) as u16, width: (top.width - 1) as u16, ..top }
}

/// The area for the log, below its title and once a column is left free.
pub open spec fn log_area(bottom: Area) -> Area {
    Area {
        x: (bottom.x + 1) as u16,
        y: (bottom.y + 1) as u16,
        width: (bottom.width - 1) as u16,
        height: if bottom.height > 0 {
            (bottom.height - 1) as u16
        } else {
            0
        },
    }
}

/// How wide the log's rows are.
pub open spec fn wrap_width(bottom: Area) -> nat {
    if bottom.width > 1 {
        (bottom.width - 2) as nat
    } else {
        0
    }
}

/// How many rows of the log are passed over, so that its end is in sight.
pub open spec fn log_skip(count: nat, log_scroll: u16, height: u16) -> nat {
    if count > log_scroll + height {
        (count - (log_scroll + height)) as nat
    } else {
        0
    }
}

/// Whether there is room for everything in the two parts of the screen.
pub open spec fn frame_fits(
    state: WorkerState,
    scroll: u16,
    log_scroll: u16,
    top: Area,
    bottom: Area,
) -> bool {
    &&& top.x < u16::MAX && top.width > 0
    &&& rows_fit(state.tasks@.len(), scroll, task_area(top))
    &&& state.tasks@.len() * 2 > top.height ==> task_area(top).width > 0
    &&& bottom.x < u16::MAX && bottom.y < u16::MAX && bottom.width > 0
    &&& match all_wrapped(lines_of(state.log@), wrap_width(bottom)) {
        Some(lines) => {
            let count = screen_rows(lines, wrap_width(bottom));
            &&& rows_countable(lines, wrap_width(bottom))
            &&& count <= i64::MAX
            &&& count > log_area(bottom).height ==> log_area(bottom).width > 0
        },
        None => false,
    }
    &&& log_scroll + log_area(bottom).height <= u16::MAX
}

/// Whether a plan is what is drawn of a state in the two parts of the screen.
pub open spec fn is_frame(
    plan: FramePlan,
    state: WorkerState,
    uiState: UIState,
    size: Area,
    top: Area,
    bottom: Area,
) -> bool {
    let lines = views(plan.lines@);
    let count = screen_rows(lines, wrap_width(bottom));
    let skip = log_skip(count, uiState.log_scroll, log_area(bottom).height);
    &&& plan.border == size
    &&& plan.title@ == " Sheepit Client (press 'Ctrl + C' to quit) "@
    &&& plan.bottom@ == "State: "@ + state_text(state.quitState) + " "@ + seq![
        spinner(uiState.spinId as int),
    ] + " "@
    &&& plan.rows@ == task_rows(state.tasks@.len(), uiState.task_scroll, task_area(top))
    &&& plan.tasks == scroll_plan(
        task_area(top),
        state.tasks@.len() * 2,
        uiState.task_scroll as usize,
    )
    &&& plan.logTitle == bottom
    &&& all_wrapped(lines_of(state.log@), wrap_width(bottom)) == Some(lines)
    &&& plan.firstLine == skip % 0x10000
    &&& plan.log == scroll_plan(log_area(bottom), count, skip as usize)
}

/// Whether what is drawn, if there is room, is what it should be.
pub open spec fn drawn_in(
    drawn: Option<FramePlan>,
    state: WorkerState,
    uiState: UIState,
    size: Area,
    top: Area,
    bottom: Area,
) -> bool {
    let fits = frame_fits(state, uiState.task_scroll, uiState.log_scroll, top, bottom);
    match drawn {
        Some(plan) => fits && is_frame(plan, state, uiState, size, top, bottom),
        None => !fits,
    }
}

/// The screen's memory once it is drawn.
pub open spec fn after_frame(uiState: UIState, tasks: nat) -> UIState {
    UIState {
        spinId: ((uiState.spinId + 1) % 4) as u8,
        task_scroll: clamped_scroll(uiState.task_scroll, tasks),
        ..uiState
    }
}

/// Whether a state can be drawn with the screen's memory as it is.
pub open spec fn drawable(state: WorkerState, uiState: UIState) -> bool {
    &&& !(state.quitState is Quit)
    &&& state.tasks@.len() <= i32::MAX
    &&& uiState.task_scroll + MAX_TASKS <= u16::MAX
    &&& uiState.spinId < u8::MAX
}

fn spinText(spinId: u8) -> (r: String)
    requires
        spinId < 4,
    ensures
        r@ == seq![spinner(spinId as int)],
{
    let mut text = "".to_owned();
    proof {
        reveal_strlit("");
    }
    text.push(
        if spinId == 0 {
            '|'
        } else if spinId == 1 {
            '/'
        } else if spinId == 2 {
            '-'
        } else {
            '\\'
        },
    );
    assert(text@ == seq![spinner(spinId as int)]);
    text
}

/// What is drawn of a state when the inside of the screen was split in `top` and `bottom`;
/// nothing where there is no room.
pub fn renderIn(
    state: &WorkerState,
    uiState: &mut UIState,
    size: Area,
    top: Area,
    bottom: Area,
) -> (r: Option<FramePlan>)
    requires
        drawable(*state, *old(uiState)),
    ensures
        *final(uiState) == after_frame(*old(uiState), state.tasks@.len()),
        drawn_in(r, *state, *final(uiState), size, top, bottom),
{
    uiState.task_scroll = clampScroll(uiState.task_scroll, state.tasks.len());
    uiState.spinId = (uiState.spinId + 1) % 4;
    let ui: UIState = *uiState;

    let mut bottomText = glue3("State: ", stateText(state.quitState).as_str(), " ");
    bottomText.append(spinText(ui.spinId).as_str());
    bottomText.append(" ");

    if top.x == u16::MAX || top.width == 0 {
        return None;
    }
    let taskArea = Area { x: top.x + 1, width: top.width - 1, ..top };
    let rows = match taskRows(state.tasks.len(), ui.task_scroll, taskArea) {
        Some(rows) => rows,
        None => {
            return None;
        },
    };
    let taskHeight: usize = state.tasks.len() * 2;
    if taskHeight > taskArea.height as usize && taskArea.width == 0 {
        return None;
    }
    let tasks = render_widgetScroll(taskArea, taskHeight, ui.task_scroll as usize);

    if bottom.x == u16::MAX || bottom.y == u16::MAX || bottom.width == 0 {
        return None;
    }
    let logArea = Area {
        x: bottom.x + 1,
        y: bottom.y + 1,
        width: bottom.width - 1,
        height: bottom.height.saturating_sub(1),
    };
    let width: usize = logArea.width.saturating_sub(1) as usize;
    let lines = match logRows(state.log.as_str(), width) {
        Some(lines) => lines,
        None => {
            return None;
        },
    };
    let count = match screenRows(&lines, width) {
        Some(count) => count,
        None => {
            return None;
        },
    };
    if count as u64 > i64::MAX as u64 || (count > logArea.height as usize && logArea.width == 0) {
        return None;
    }
    if ui.log_scroll > u16::MAX - logArea.height {
        return None;
    }
    let skip: usize = count.saturating_sub((ui.log_scroll + logArea.height) as usize);
    let log = render_widgetScroll(logArea, count, skip);
    Some(
        FramePlan {
            border: size,
            title: " Sheepit Client (press 'Ctrl + C' to quit) ".to_owned(),
            bottom: bottomText,
            rows,
            tasks,
            logTitle: bottom,
            lines,
            firstLine: (skip % 0x10000) as u16,
            log,
        },
    )
}

/// What is drawn of a state on a screen of the given size, with the tasks above and the log below;
/// nothing where there is no room.
pub fn render_app(state: &WorkerState, uiState: &mut UIState, size: Area) -> (r: Option<FramePlan>)
    requires
        drawable(*state, *old(uiState)),
    ensures
        *final(uiState) == after_frame(*old(uiState), state.tasks@.len()),
        drawn_in(
            r,
            *state,
            *final(uiState),
            size,
            split_in(inside(size), MAX_TASKS).0,
            split_in(inside(size), MAX_TASKS).1,
        ),
{
    let (top, bottom) = splitFrame(insideOf(size), MAX_TASKS, 2);
    renderIn(state, uiState, size, top, bottom)
}

// What the layout is for

/// The inside of a border lies one cell within it on each side.
pub proof fn law_inside(area: Area)
    requires
        area.x < u16::MAX,
        area.y < u16::MAX,
    ensures
        area.width >= 2 && area.height >= 2 ==> {
            &&& inside(area).x == area.x + 1
            &&& inside(area).y == area.y + 1
            &&& inside(area).x + inside(area).width + 1 == area.x + area.width
            &&& inside(area).y + inside(area).height + 1 == area.y + area.height
        },
        area.width < 2 || area.height < 2 ==> inside(area) == (Area {
            x: 0,
            y: 0,
            width: 0,
            height: 0,
        }),
{
}

/// The two parts of an area lie one above the other, as wide as the area, and fill it; the upper one
/// is as high as wanted, or as there is room.
pub proof fn law_split(area: Area, length: u16)
    requires
        area.y + area.height <= u16::MAX,
    ensures
        ({
            let (top, bottom) = split_in(area, length);
            &&& top.x == area.x && bottom.x == area.x
            &&& top.width == area.width && bottom.width == area.width
            &&& top.y == area.y
            &&& bottom.y == top.y + top.height
            &&& top.height + bottom.height == area.height
            &&& top.height <= length
            &&& top.height < length ==> bottom.height == 0
        }),
{
}

/// The tasks are scrolled as far as wanted, while nine of them can be in sight.
pub proof fn law_scroll_limit(scroll: u16, tasks: nat)
    ensures
        scroll + 9 <= tasks ==> clamped_scroll(scroll, tasks) == scroll,
        tasks <= 9 ==> clamped_scroll(scroll, tasks) == 0,
        9 <= tasks < scroll + 9 ==> clamped_scroll(scroll, tasks) + 9 == tasks,
{
}

/// There is a scroll bar exactly if there is more than room for; it takes a column, and reaches over
/// what does not fit.
pub proof fn law_scroll_plan(area: Area, height: nat, scroll: usize)
    requires
        height > area.height ==> area.width > 0,
        height <= usize::MAX,
    ensures
        ({
            let plan = scroll_plan(area, height, scroll);
            &&& plan.area == area
            &&& plan.bar is Some <==> height > area.height
            &&& plan.bar matches Some(bar) ==> bar.length + area.height == height && bar.position
                == scroll && plan.content.width + 1 == area.width
            &&& plan.bar is None ==> plan.content == area
            &&& plan.content == (Area { width: plan.content.width, ..area })
        }),
{
}

/// As many tasks are in sight as there are from the one that is scrolled to on, or as there are rows.
pub proof fn law_rows_in_sight(tasks: nat, scroll: u16, area: Area)
    ensures
        ({
            let rows = task_rows(tasks, scroll, area).len();
            &&& rows <= area.height
            &&& scroll + rows <= tasks || rows == 0
            &&& rows < area.height && scroll <= tasks ==> scroll + rows == tasks
            &&& rows == 0 ==> rows_fit(tasks, scroll, area)
        }),
{
}

/// A column is left free beside the tasks, and one beside the log as well as the row of its title;
/// the log's rows leave one more column for the bar.
pub proof fn law_parts_of_the_screen(top: Area, bottom: Area)
    requires
        top.x < u16::MAX,
        top.width > 0,
        bottom.x < u16::MAX,
        bottom.y < u16::MAX,
        bottom.width > 1,
        bottom.height > 0,
    ensures
        task_area(top).x == top.x + 1,
        task_area(top).x + task_area(top).width == top.x + top.width,
        task_area(top).y == top.y && task_area(top).height == top.height,
        log_area(bottom).x == bottom.x + 1,
        log_area(bottom).x + log_area(bottom).width == bottom.x + bottom.width,
        log_area(bottom).y == bottom.y + 1,
        log_area(bottom).y + log_area(bottom).height == bottom.y + bottom.height,
        wrap_width(bottom) + 1 == log_area(bottom).width,
{
}

/// As many rows of the log are passed over as are needed for the last ones to be in sight, but for
/// those that are scrolled past; none where all have room.
pub proof fn law_log_skip(count: nat, log_scroll: u16, height: u16)
    ensures
        count > log_scroll + height ==> log_skip(count, log_scroll, height) + log_scroll + height
            == count,
        count <= log_scroll + height ==> log_skip(count, log_scroll, height) == 0,
{
}

/// What spins goes round in four steps, each with a sign of its own; the tasks are scrolled no further
/// than allowed, and nothing else changes when the screen is drawn.
pub proof fn law_after_frame(ui: UIState, tasks: nat, a: int, b: int)
    ensures
        after_frame(ui, tasks).spinId < 4,
        ui.spinId < 3 ==> after_frame(ui, tasks).spinId == ui.spinId + 1,
        ui.spinId == 3 ==> after_frame(ui, tasks).spinId == 0,
        after_frame(ui, tasks).task_scroll == clamped_scroll(ui.task_scroll, tasks),
        after_frame(ui, tasks).log_scroll == ui.log_scroll,
        after_frame(ui, tasks).lastCheck == ui.lastCheck,
        0 <= a < 4 && 0 <= b < 4 && spinner(a) == spinner(b) ==> a == b,
{
}

/// The user is told whether the client runs, quits after its job, or quits at once.
pub proof fn law_state_texts(a: QuitState, b: QuitState)
    requires
        !(a is Quit),
        !(b is Quit),
    ensures
        state_text(a) == state_text(b) ==> a == b,
        state_text(QuitState::Running) == seq!['R', 'u', 'n', 'n', 'i', 'n', 'g'],
{
    reveal_strlit("Running");
    reveal_strlit("Quitting after job. (quit again to cancel job)");
    reveal_strlit("Quitting now...");
    assert("Running"@.len() == 7);
    assert("Quitting after job. (quit again to cancel job)"@.len() == 46);
    assert("Quitting now..."@.len() == 15);
    assert(state_text(QuitState::Running) == seq!['R', 'u', 'n', 'n', 'i', 'n', 'g']);
}

/// A text without a line feed is a line, unless it is empty; one that stands before a line feed is a
/// line of its own, without a carriage return at its end, and the lines of the rest follow.
pub proof fn law_lines(line: Seq<char>, rest: Seq<char>)
    requires
        !line.contains('\n'),
    ensures
        line.len() > 0 ==> lines_of(line) == seq![line],
        line.len() == 0 ==> lines_of(line).len() == 0,
        lines_of(line + seq!['\n'] + rest) == seq![without_return(line)] + lines_of(rest),
{
    crate::text::law_pieces(line, rest, '\n');
    crate::text::lemma_pieces(rest, '\n');
    let parts = pieces(rest, '\n');
    let all = pieces(line + seq!['\n'] + rest, '\n');
    assert(all == seq![line] + parts);
    assert(all.last() == parts.last());
    assert(all.drop_last() == seq![line] + parts.drop_last());
    assert(all.drop_last().map_values(|p: Seq<char>| without_return(p)) == seq![
        without_return(line),
    ] + parts.drop_last().map_values(|p: Seq<char>| without_return(p)));
    assert(lines_of(line + seq!['\n'] + rest) == seq![without_return(line)] + lines_of(rest));
    assert(seq![line].drop_last().map_values(|p: Seq<char>| without_return(p)) == Seq::<
        Seq<char>,
    >::empty());
    if line.len() > 0 {
        assert(lines_of(line) == seq![line]);
    }
}

/// Only a carriage return at the very end of a line goes.
pub proof fn law_without_return(line: Seq<char>)
    ensures
        without_return(line.push('\r')) == line,
        line.len() == 0 || line.last() != '\r' ==> without_return(line) == line,
{
    assert(line.push('\r').drop_last() == line);
}

/// Every row of a wrapped line but the last is filled: it takes exactly as many bytes as there is room
/// for.
pub proof fn law_rows_filled(line: Seq<char>, width: nat, i: int)
    requires
        wrapped_line(line, width) is Some,
        0 <= i < wrapped_line(line, width)->0.len() - 1,
    ensures
        text_bytes(wrapped_line(line, width)->0[i]) == width,
{
    if line.len() > 0 {
        lemma_rows_filled(line, width, i);
    }
}

proof fn lemma_cut_full(s: Seq<char>, bytes: nat)
    ensures
        cut(s, bytes) matches Some(n) ==> n < s.len() ==> text_bytes(s.take(n as int)) == bytes,
    decreases s.len(),
{
    if bytes > 0 && s.len() > 0 && char_bytes(s[0]) <= bytes {
        let rest = (bytes - char_bytes(s[0])) as nat;
        lemma_cut_full(s.skip(1), rest);
        lemma_cut(s.skip(1), rest);
        if let Some(n) = cut(s.skip(1), rest) {
            assert(s.take(n as int + 1).skip(1) == s.skip(1).take(n as int));
            assert(s.take(n as int + 1)[0] == s[0]);
        }
    } else {
        assert(s.take(0).len() == 0);
    }
}

proof fn lemma_rows_filled(s: Seq<char>, width: nat, i: int)
    requires
        wrapped(s, width) is Some,
        0 <= i < wrapped(s, width)->0.len() - 1,
    ensures
        text_bytes(wrapped(s, width)->0[i]) == width,
    decreases s.len(),
{
    if s.len() > 0 {
        let n = cut(s, width)->0;
        let rest = s.skip(n as int);
        let more = wrapped(rest, width)->0;
        let rows = seq![s.take(n as int)] + more;
        assert(wrapped(s, width)->0 == rows);
        if i == 0 {
            lemma_cut_full(s, width);
            if n == s.len() {
                assert(rest.len() == 0);
                assert(more.len() == 0);
            }
        } else {
            lemma_rows_filled(rest, width, i - 1);
            assert(rows[i] == more[i - 1]);
        }
    }
}

/// A character takes as many bytes as UTF-8 gives it: one for ASCII, and four at the most.
pub proof fn law_char_bytes(c: char)
    ensures
        (c as u32) < 0x80 <==> char_bytes(c) == 1,
        0x80 <= (c as u32) < 0x800 <==> char_bytes(c) == 2,
        0x800 <= (c as u32) < 0x10000 <==> char_bytes(c) == 3,
        0x10000 <= (c as u32) <==> char_bytes(c) == 4,
{
}

/// The rows of some lines, and then of others, are those of all of them, and so is their number on the
/// screen.
pub proof fn law_rows_add_up(first: Seq<Seq<char>>, second: Seq<Seq<char>>, width: nat)
    ensures
        screen_rows(first + second, width) == screen_rows(first, width) + screen_rows(
            second,
            width,
        ),
        all_wrapped(first + second, width) == match (
            all_wrapped(first, width),
            all_wrapped(second, width),
        ) {
            (Some(a), Some(b)) => Some(a + b),
            _ => None,
        },
    decreases second.len(),
{
    if second.len() > 0 {
        law_rows_add_up(first, second.drop_last(), width);
        assert((first + second).drop_last() == first + second.drop_last());
        assert((first + second).last() == second.last());
        if let (Some(a), Some(b)) = (
            all_wrapped(first, width),
            all_wrapped(second.drop_last(), width),
        ) {
            if let Some(rows) = wrapped_line(second.last(), width) {
                assert((a + b) + rows == a + (b + rows));
            }
        }
    } else {
        assert(first + second == first);
        if let Some(a) = all_wrapped(first, width) {
            assert(a + Seq::<Seq<char>>::empty() == a);
        }
    }
}

/// A line takes as many rows as hold its cells, and not one more.
pub proof fn law_line_rows(line: Seq<char>, width: nat)
    requires
        width >= 1,
    ensures
        screen_rows(seq![line], width) * width >= text_width(line),
        text_width(line) > 0 ==> (screen_rows(seq![line], width) - 1) * width < text_width(line),
{
    reveal_with_fuel(screen_rows, 2);
    assert(seq![line].drop_last() == Seq::<Seq<char>>::empty());
    law_ceiling(text_width(line), width);
}

/// What is drawn: the border all around, the tasks from the one that is scrolled to, the log with its
/// end in sight, and below it how the client fares.
pub proof fn law_frame(
    plan: FramePlan,
    state: WorkerState,
    ui: UIState,
    size: Area,
    top: Area,
    bottom: Area,
)
    requires
        drawn_in(Some(plan), state, ui, size, top, bottom),
        state.tasks@.len() <= i32::MAX,
    ensures
        plan.border == size,
        plan.title@ == " Sheepit Client (press 'Ctrl + C' to quit) "@,
        plan.logTitle == bottom,
        exists|head: Seq<char>, tail: Seq<char>|
            plan.bottom@ == #[trigger] (head + state_text(state.quitState) + tail) && tail.contains(
                spinner(ui.spinId as int),
            ),
        plan.rows@.len() <= task_area(top).height,
        plan.rows@.len() > 0 ==> plan.rows@[0].task == ui.task_scroll && plan.rows@[0].area.y
            == top.y,
        plan.tasks.bar is Some <==> state.tasks@.len() * 2 > top.height,
        plan.log.bar is Some <==> screen_rows(views(plan.lines@), wrap_width(bottom)) > log_area(
            bottom,
        ).height,
        ({
            let count = screen_rows(views(plan.lines@), wrap_width(bottom));
            let shown = ui.log_scroll + log_area(bottom).height;
            &&& count <= shown ==> plan.firstLine == 0
            &&& shown < count < 0x10000 ==> plan.firstLine + shown == count
        }),
{
    let head = "State: "@;
    let tail = " "@ + seq![spinner(ui.spinId as int)] + " "@;
    assert(plan.bottom@ == head + state_text(state.quitState) + tail);
    reveal_strlit(" ");
    assert(tail[1] == spinner(ui.spinId as int));
}

/// There is room for a frame on every screen that is not tiny, as long as the log can be wrapped and
/// its rows be counted.
pub proof fn law_frame_fits(
    state: WorkerState,
    scroll: u16,
    log_scroll: u16,
    size: Area,
    lines: Seq<Seq<char>>,
)
    requires
        size.x == 0,
        size.y == 0,
        size.width >= 6,
        size.height >= 2,
        size.height < u16::MAX,
        ({
            let bottom = split_in(inside(size), MAX_TASKS).1;
            &&& all_wrapped(lines_of(state.log@), wrap_width(bottom)) == Some(lines)
            &&& rows_countable(lines, wrap_width(bottom))
            &&& screen_rows(lines, wrap_width(bottom)) <= i64::MAX
            &&& log_scroll + bottom.height <= u16::MAX
        }),
    ensures
        frame_fits(
            state,
            scroll,
            log_scroll,
            split_in(inside(size), MAX_TASKS).0,
            split_in(inside(size), MAX_TASKS).1,
        ),
{
}

/// The tasks get ten rows of the screen, and the log all the others.
pub proof fn law_rows_for_tasks(size: Area)
    requires
        size.x < u16::MAX,
        size.y + size.height <= u16::MAX,
        size.width >= 2,
        size.height >= 12,
    ensures
        split_in(inside(size), MAX_TASKS).0.height == 10,
        split_in(inside(size), MAX_TASKS).1.height + 12 == size.height,
{
}

/// An area that is too narrow for the log and its bar leaves no room for text.
pub proof fn law_no_room_for_text(bottom: Area)
    requires
        bottom.width <= 2,
    ensures
        wrap_width(bottom) == 0,
{
}

/// Where there is nothing to show, there is room for it on a screen that has any inside.
pub proof fn law_empty_frame_fits(state: WorkerState, log_scroll: u16, size: Area)
    requires
        size.x == 0,
        size.y == 0,
        size.width >= 3,
        2 <= size.height < u16::MAX,
        state.tasks@.len() == 0,
        state.log@.len() == 0,
        log_scroll + size.height <= u16::MAX,
    ensures
        frame_fits(
            state,
            0,
            log_scroll,
            split_in(inside(size), MAX_TASKS).0,
            split_in(inside(size), MAX_TASKS).1,
        ),
{
    law_lines(state.log@, Seq::empty());
}

} // verus!
