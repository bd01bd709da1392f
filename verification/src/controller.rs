//! The task list controller: recomputing the displayed list and its cursor,
//! and the four edits of the selected project's tasks.
//!
//! Storage is not reached from here. An edit hands back the whole collection
//! as it is to be stored; the caller stores it, reads the stored collection
//! back, and hands that to [`Task::reload`], which makes it the collection in
//! memory and recomputes the display.

use vstd::prelude::*;
use crate::order::{sort_tasks, sorted_by_status};
use crate::render::{entry_views, render_tasks, task_entries, ListEntry};
use crate::selection::{position_of_title, remembered_title, reselected};
use crate::state::{lemma_project_views_update, project_views, replace_tasks};
use crate::state::{App, AppView, Project, ProjectView};
use crate::status::TASK_STATUS_UP_NEXT;
use crate::task::{duplicate_tasks, lemma_task_views_push, task_views, Task, TaskView};

verus! {

/// The cursor after the display was recomputed from `tasks`: on the first
/// displayed task with the title that was under the cursor, on position 0
/// where there is none, and unset only where there are no tasks and it was
/// unset before.
pub open spec fn cursor_after_load(tasks: Seq<TaskView>, cursor: Option<int>) -> Option<int> {
    if tasks.len() == 0 && cursor is None {
        None
    } else {
        Some(reselected(sorted_by_status(tasks), remembered_title(tasks, cursor)))
    }
}

/// The context after the display was recomputed: the selected project's
/// tasks are in displayed order, the cursor has followed its title, and
/// nothing else has changed.
pub open spec fn loaded(app: AppView) -> AppView
    recommends
        app.project_selected(),
{
    AppView {
        projects: app.with_tasks(sorted_by_status(app.tasks())),
        selected_project: app.selected_project,
        selected_task: cursor_after_load(app.tasks(), app.selected_task),
    }
}

/// The context with the collection replaced wholesale.
pub open spec fn replaced(app: AppView, projects: Seq<ProjectView>) -> AppView {
    AppView { projects, selected_project: app.selected_project, selected_task: app.selected_task }
}

/// The task that `create` adds for a title.
pub open spec fn new_task(title: Seq<char>) -> TaskView {
    TaskView { title, status: TASK_STATUS_UP_NEXT@ }
}

/// The collection with a new task appended to the selected project.
pub open spec fn created(app: AppView, title: Seq<char>) -> Seq<ProjectView>
    recommends
        app.project_selected(),
{
    app.with_tasks(app.tasks().push(new_task(title)))
}

/// The collection with the title of the task under the cursor replaced.
pub open spec fn renamed(app: AppView, title: Seq<char>) -> Seq<ProjectView>
    recommends
        app.task_selected(),
{
    let i = app.selected_task.unwrap();
    app.with_tasks(app.tasks().update(i, TaskView { title, status: app.tasks()[i].status }))
}

/// The collection with the status of the task under the cursor replaced.
pub open spec fn restatused(app: AppView, status: Seq<char>) -> Seq<ProjectView>
    recommends
        app.task_selected(),
{
    let i = app.selected_task.unwrap();
    app.with_tasks(app.tasks().update(i, TaskView { title: app.tasks()[i].title, status }))
}

/// The collection without the task under the cursor.
pub open spec fn deleted(app: AppView) -> Seq<ProjectView>
    recommends
        app.task_selected(),
{
    app.with_tasks(app.tasks().remove(app.selected_task.unwrap()))
}

impl Task {
    /// Recomputes the display of the selected project's tasks: puts them in
    /// displayed order in place, moves the cursor to where its title now
    /// stands, and replaces `items` by one entry per task.
    pub fn load(app: &mut App, items: &mut Vec<ListEntry>)
        requires
            old(app)@.project_selected(),
        ensures
            final(app)@ == loaded(old(app)@),
            entry_views(final(items)@) == task_entries(final(app)@.tasks()),
    {
        let p = app.selected_project_index.unwrap();
        let ghost before = app@;
        let title = match app.selected_task_index {
            Some(i) => if i < app.projects[p].tasks.len() {
                app.projects[p].tasks[i].title.clone()
            } else {
                String::new()
            },
            None => String::new(),
        };
        assert(title@ == remembered_title(before.tasks(), before.selected_task));
        let unset = app.projects[p].tasks.len() == 0 && app.selected_task_index.is_none();
        let sorted = sort_tasks(&app.projects[p].tasks);
        let index = position_of_title(&sorted, title.as_str());
        render_tasks(&sorted, items);
        let project = Project { name: app.projects[p].name.clone(), tasks: sorted };
        proof {
            lemma_project_views_update(app.projects@, p as int, project);
        }
        app.projects.set(p, project);
        app.selected_task_index = if unset {
            None
        } else {
            Some(index)
        };
        assert(app@.projects =~= loaded(before).projects);
    }

    /// Makes the collection that was read back from storage the one in
    /// memory, and recomputes the display from it.
    pub fn reload(app: &mut App, items: &mut Vec<ListEntry>, stored: Vec<Project>)
        requires
            replaced(old(app)@, project_views(stored@)).project_selected(),
        ensures
            final(app)@ == loaded(replaced(old(app)@, project_views(stored@))),
            entry_views(final(items)@) == task_entries(final(app)@.tasks()),
    {
        app.projects = stored;
        Task::load(app, items);
    }

    /// The collection to store for a new task with the given title and the
    /// status `UpNext`, appended to the selected project; nothing for an
    /// empty title.
    pub fn create(app: &App, value: &str) -> (edited: Option<Vec<Project>>)
        requires
            value@.len() > 0 ==> app@.project_selected(),
        ensures
            value@.len() == 0 ==> edited is None,
            value@.len() > 0 ==> edited is Some && project_views(edited.unwrap()@) == created(
                app@,
                value@,
            ),
    {
        if value.is_empty() {
            return None;
        }
        let p = app.selected_project_index.unwrap();
        let mut tasks = duplicate_tasks(&app.projects[p].tasks);
        let task = Task { title: value.to_owned(), status: TASK_STATUS_UP_NEXT.to_owned() };
        proof {
            lemma_task_views_push(tasks@, task);
        }
        tasks.push(task);
        Some(replace_tasks(&app.projects, p, tasks))
    }

    /// The collection to store for the task under the cursor with its title
    /// replaced. Any title is taken, the empty one too.
    pub fn rename(app: &App, value: &str) -> (edited: Vec<Project>)
        requires
            app@.task_selected(),
        ensures
            project_views(edited@) == renamed(app@, value@),
    {
        let p = app.selected_project_index.unwrap();
        let i = app.selected_task_index.unwrap();
        let mut tasks = duplicate_tasks(&app.projects[p].tasks);
        let task = Task { title: value.to_owned(), status: app.projects[p].tasks[i].status.clone() };
        assert(tasks@.len() == task_views(tasks@).len());
        assert(task_views(tasks@.update(i as int, task)) =~= task_views(tasks@).update(
            i as int,
            task@,
        ));
        tasks.set(i, task);
        replace_tasks(&app.projects, p, tasks)
    }

    /// The collection to store for the task under the cursor with its status
    /// replaced. Any status is taken, recognised or not.
    pub fn change_status(app: &App, value: &str) -> (edited: Vec<Project>)
        requires
            app@.task_selected(),
        ensures
            project_views(edited@) == restatused(app@, value@),
    {
        let p = app.selected_project_index.unwrap();
        let i = app.selected_task_index.unwrap();
        let mut tasks = duplicate_tasks(&app.projects[p].tasks);
        let task = Task { title: app.projects[p].tasks[i].title.clone(), status: value.to_owned() };
        assert(tasks@.len() == task_views(tasks@).len());
        assert(task_views(tasks@.update(i as int, task)) =~= task_views(tasks@).update(
            i as int,
            task@,
        ));
        tasks.set(i, task);
        replace_tasks(&app.projects, p, tasks)
    }

    /// The collection to store without the task under the cursor.
    pub fn delete(app: &App) -> (edited: Vec<Project>)
        requires
            app@.task_selected(),
        ensures
            project_views(edited@) == deleted(app@),
    {
        let p = app.selected_project_index.unwrap();
        let i = app.selected_task_index.unwrap();
        let mut tasks = duplicate_tasks(&app.projects[p].tasks);
        assert(tasks@.len() == task_views(tasks@).len());
        assert(task_views(tasks@.remove(i as int)) =~= task_views(tasks@).remove(i as int));
        tasks.remove(i);
        replace_tasks(&app.projects, p, tasks)
    }
}

} // verus!
