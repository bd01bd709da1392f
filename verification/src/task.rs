//! Tasks, the projects that own them, and the task list controller.

use vstd::prelude::*;

verus! {

/// A titled unit of work with a status. Neither field is constrained: the
/// status is stored as given, recognised or not.
#[derive(Clone, Debug, PartialEq, Eq)]
pub struct Task {
    pub title: String,
    pub status: String,
}

/// What a task is: its title and its status, as texts.
pub struct TaskView {
    pub title: Seq<char>,
    pub status: Seq<char>,
}

impl View for Task {
    type V = TaskView;

    open spec fn view(&self) -> TaskView {
        TaskView { title: self.title@, status: self.status@ }
    }
}

/// The tasks of a sequence, each as its view.
pub open spec fn task_views(tasks: Seq<Task>) -> Seq<TaskView> {
    Seq::new(tasks.len(), |i: int| tasks[i]@)
}

/// The views of a sequence with one more task are the views with one more view.
pub proof fn lemma_task_views_push(tasks: Seq<Task>, task: Task)
    ensures
        task_views(tasks.push(task)) == task_views(tasks).push(task@),
{
    assert(task_views(tasks.push(task)) =~= task_views(tasks).push(task@));
}

impl Task {
    /// A task with the same title and status.
    pub fn duplicate(&self) -> (copy: Task)
        ensures
            copy@ == self@,
    {
        Task { title: self.title.clone(), status: self.status.clone() }
    }
}

/// A sequence of tasks with the same titles and statuses, in the same order.
pub fn duplicate_tasks(tasks: &Vec<Task>) -> (copy: Vec<Task>)
    ensures
        task_views(copy@) == task_views(tasks@),
{
    let mut copy: Vec<Task> = Vec::new();
    let mut i: usize = 0;
    while i < tasks.len()
        invariant
            i <= tasks.len(),
            task_views(copy@) == task_views(tasks@).take(i as int),
        decreases tasks.len() - i,
    {
        let task = tasks[i].duplicate();
        proof {
            lemma_task_views_push(copy@, task);
        }
        copy.push(task);
        i += 1;
        assert(task_views(copy@) =~= task_views(tasks@).take(i as int));
    }
    assert(task_views(tasks@).take(i as int) =~= task_views(tasks@));
    copy
}

} // verus!
