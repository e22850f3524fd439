//! What the client shows of itself.

use vstd::prelude::*;
use vstd::std_specs::cmp::PartialEqSpec;

use crate::text::strEq;

verus! {

/// Whether the client is on its way out.
#[derive(Debug, Clone, Copy, PartialEq, Eq, Structural)]
pub enum QuitState {
    Running,
    Quitting,
    QuittingNow,
    Quit,
}

/// Something that the client is doing.
#[derive(Debug, Clone)]
pub struct Task {
    pub name: String,
    /// The bits of a single-precision number, from zero to one.
    pub progress: u32,
}

/// Tasks are told apart by their names.
impl PartialEq for Task {
    fn eq(&self, other: &Self) -> (r: bool) {
        strEq(self.name.as_str(), other.name.as_str())
    }
}

impl vstd::std_specs::cmp::PartialEqSpecImpl for Task {
    open spec fn obeys_eq_spec() -> bool {
        true
    }

    open spec fn eq_spec(&self, other: &Self) -> bool {
        self.name@ == other.name@
    }
}

/// What the client is doing, and what it has to say.
#[derive(Debug, Clone)]
pub struct WorkerState {
    pub quitState: QuitState,
    pub tasks: Vec<Task>,
    pub log: String,
}

/// The names of some tasks.
pub open spec fn task_names(tasks: Seq<Task>) -> Seq<Seq<char>> {
    tasks.map_values(|t: Task| t.name@)
}

fn sameTasks(a: &Vec<Task>, b: &Vec<Task>) -> (r: bool)
    ensures
        r == (task_names(a@) == task_names(b@)),
{
    if a.len() != b.len() {
        assert(task_names(a@).len() != task_names(b@).len());
        return false;
    }
    let mut i: usize = 0;
    while i < a.len()
        invariant
            i <= a@.len(),
            a@.len() == b@.len(),
            forall|k: int| 0 <= k < i ==> #[trigger] task_names(a@)[k] == task_names(b@)[k],
        decreases a@.len() - i,
    {
        assert(task_names(a@)[i as int] == a@[i as int].name@);
        assert(task_names(b@)[i as int] == b@[i as int].name@);
        if a[i] != b[i] {
            return false;
        }
        i += 1;
    }
    assert(task_names(a@) == task_names(b@));
    true
}

impl PartialEq for WorkerState {
    fn eq(&self, other: &Self) -> (r: bool) {
        self.quitState == other.quitState && sameTasks(&self.tasks, &other.tasks) && strEq(
            self.log.as_str(),
            other.log.as_str(),
        )
    }
}

impl vstd::std_specs::cmp::PartialEqSpecImpl for WorkerState {
    open spec fn obeys_eq_spec() -> bool {
        true
    }

    open spec fn eq_spec(&self, other: &Self) -> bool {
        &&& self.quitState == other.quitState
        &&& task_names(self.tasks@) == task_names(other.tasks@)
        &&& self.log@ == other.log@
    }
}

impl WorkerState {
    /// A client that runs, does nothing and has nothing to say.
    pub fn new() -> (r: WorkerState)
        ensures
            r.quitState is Running,
            r.tasks@.len() == 0,
            r.log@ == ""@,
    {
        WorkerState { quitState: QuitState::Running, tasks: Vec::new(), log: "".to_owned() }
    }
}

/// Adds to what the client has to say.
pub fn log(state: &mut WorkerState, text: &str)
    ensures
        final(state).log@ == old(state).log@ + text@,
        final(state).quitState == old(state).quitState,
        final(state).tasks == old(state).tasks,
{
    state.log.append(text);
}

/// Two states are the same to the user exactly if the client is as far on its way out in both, does
/// things of the same names in the same order, and has the same to say. How far a thing is done does
/// not tell it from another.
pub proof fn law_states_alike(a: WorkerState, b: WorkerState, one: Task, other: Task)
    ensures
        a.eq_spec(&b) <==> a.quitState
            == b.quitState && a.log@ == b.log@ && a.tasks@.len() == b.tasks@.len() && forall|
            i: int,
        | 0 <= i < a.tasks@.len() ==> (#[trigger] a.tasks@[i]).name@ == b.tasks@[i].name@,
        one.eq_spec(&other) <==> one.name@
            == other.name@,
{
    let x = task_names(a.tasks@);
    let y = task_names(b.tasks@);
    if x == y {
        assert(x.len() == y.len());
        assert forall|i: int| 0 <= i < a.tasks@.len() implies (#[trigger] a.tasks@[i]).name@
            == b.tasks@[i].name@ by {
            assert(x[i] == y[i]);
        }
    }
    if a.tasks@.len() == b.tasks@.len() && forall|i: int|
        0 <= i < a.tasks@.len() ==> (#[trigger] a.tasks@[i]).name@ == b.tasks@[i].name@ {
        assert forall|i: int| 0 <= i < x.len() implies x[i] == y[i] by {
            assert(a.tasks@[i].name@ == b.tasks@[i].name@);
        }
        assert(x == y);
    }
}

} // verus!
