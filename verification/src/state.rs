//! The application context that the task list controller works on: the
//! project collection, the selected project and the selection cursor.

use vstd::prelude::*;
use crate::task::{duplicate_tasks, task_views, Task, TaskView};

verus! {

/// A named owner of an ordered sequence of tasks.
#[derive(Clone, Debug, PartialEq, Eq)]
pub struct Project {
    pub name: String,
    pub tasks: Vec<Task>,
}

pub struct ProjectView {
    pub name: Seq<char>,
    pub tasks: Seq<TaskView>,
}

impl View for Project {
    type V = ProjectView;

    open spec fn view(&self) -> ProjectView {
        ProjectView { name: self.name@, tasks: task_views(self.tasks@) }
    }
}

/// The projects of a sequence, each as its view.
pub open spec fn project_views(projects: Seq<Project>) -> Seq<ProjectView> {
    Seq::new(projects.len(), |i: int| projects[i]@)
}

/// The context of the controller. Both selections are positions, not
/// references: the cursor points into the selected project's tasks as they
/// are displayed.
#[derive(Clone, Debug, PartialEq, Eq)]
pub struct App {
    pub projects: Vec<Project>,
    pub selected_project_index: Option<usize>,
    pub selected_task_index: Option<usize>,
}

pub struct AppView {
    pub projects: Seq<ProjectView>,
    pub selected_project: Option<int>,
    pub selected_task: Option<int>,
}

/// A position as the contracts speak of it.
pub open spec fn position(index: Option<usize>) -> Option<int> {
    match index {
        Some(i) => Some(i as int),
        None => None,
    }
}

impl View for App {
    type V = AppView;

    open spec fn view(&self) -> AppView {
        AppView {
            projects: project_views(self.projects@),
            selected_project: position(self.selected_project_index),
            selected_task: position(self.selected_task_index),
        }
    }
}

impl AppView {
    /// Whether a project is selected and exists.
    pub open spec fn project_selected(self) -> bool {
        self.selected_project matches Some(p) && 0 <= p < self.projects.len()
    }

    /// The tasks of the selected project.
    pub open spec fn tasks(self) -> Seq<TaskView>
        recommends
            self.project_selected(),
    {
        self.projects[self.selected_project.unwrap()].tasks
    }

    /// Whether the cursor points at a task of the selected project.
    pub open spec fn task_selected(self) -> bool {
        &&& self.project_selected()
        &&& self.selected_task matches Some(i) && 0 <= i < self.tasks().len()
    }

    /// The collection with the selected project's tasks replaced.
    pub open spec fn with_tasks(self, tasks: Seq<TaskView>) -> Seq<ProjectView>
        recommends
            self.project_selected(),
    {
        let p = self.selected_project.unwrap();
        self.projects.update(p, ProjectView { name: self.projects[p].name, tasks })
    }
}

/// The views of a collection with one project replaced.
pub proof fn lemma_project_views_update(projects: Seq<Project>, index: int, project: Project)
    requires
        0 <= index < projects.len(),
    ensures
        project_views(projects.update(index, project)) == project_views(projects).update(
            index,
            project@,
        ),
{
    assert(project_views(projects.update(index, project)) =~= project_views(projects).update(
        index,
        project@,
    ));
}

impl App {
    /// Whether a project is selected and exists.
    pub fn has_selected_project(&self) -> (selected: bool)
        ensures
            selected == self@.project_selected(),
    {
        match self.selected_project_index {
            Some(p) => p < self.projects.len(),
            None => false,
        }
    }

    /// Whether a project is selected and the cursor points at one of its
    /// tasks.
    pub fn has_selected_task(&self) -> (selected: bool)
        ensures
            selected == self@.task_selected(),
    {
        match (self.selected_project_index, self.selected_task_index) {
            (Some(p), Some(i)) => p < self.projects.len() && i < self.projects[p].tasks.len(),
            _ => false,
        }
    }
}

impl Project {
    /// A project with the same name and the same tasks.
    pub fn duplicate(&self) -> (copy: Project)
        ensures
            copy@ == self@,
    {
        Project { name: self.name.clone(), tasks: duplicate_tasks(&self.tasks) }
    }
}

/// A collection with the same projects, in the same order.
pub fn duplicate_projects(projects: &Vec<Project>) -> (copy: Vec<Project>)
    ensures
        project_views(copy@) == project_views(projects@),
{
    let mut copy: Vec<Project> = Vec::new();
    let mut i: usize = 0;
    while i < projects.len()
        invariant
            i <= projects.len(),
            project_views(copy@) == project_views(projects@).take(i as int),
        decreases projects.len() - i,
    {
        let project = projects[i].duplicate();
        assert(project_views(copy@.push(project)) =~= project_views(copy@).push(project@));
        copy.push(project);
        i += 1;
        assert(project_views(copy@) =~= project_views(projects@).take(i as int));
    }
    assert(project_views(projects@).take(i as int) =~= project_views(projects@));
    copy
}

/// A copy of the collection in which the project at `index` has the given
/// tasks in place of its own.
pub fn replace_tasks(projects: &Vec<Project>, index: usize, tasks: Vec<Task>) -> (edited: Vec<
    Project,
>)
    requires
        index < projects@.len(),
    ensures
        project_views(edited@) == project_views(projects@).update(
            index as int,
            ProjectView { name: projects@[index as int].name@, tasks: task_views(tasks@) },
        ),
{
    let mut edited = duplicate_projects(projects);
    let project = Project { name: projects[index].name.clone(), tasks };
    assert(edited@.len() == project_views(edited@).len());
    proof {
        lemma_project_views_update(edited@, index as int, project);
    }
    edited.set(index, project);
    edited
}

} // verus!
