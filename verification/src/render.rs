//! What the list widget is given to show: entries made of pieces of text,
//! each piece in a colour or plain.

use vstd::prelude::*;
use crate::status::{color_of, presentation_order, same_text, statuses, texts_of};
use crate::status::StatusColor;
use crate::status::{TASK_STATUS_DONE, TASK_STATUS_ON_GOING, TASK_STATUS_UP_NEXT};
use crate::task::{task_views, Task, TaskView};

verus! {

/// A piece of text, in a colour or plain.
#[derive(Clone, Debug, PartialEq, Eq)]
pub struct StyledText {
    pub text: String,
    pub color: Option<StatusColor>,
}

pub struct StyledTextView {
    pub text: Seq<char>,
    pub color: Option<StatusColor>,
}

impl View for StyledText {
    type V = StyledTextView;

    open spec fn view(&self) -> StyledTextView {
        StyledTextView { text: self.text@, color: self.color }
    }
}

/// One entry of the list: its pieces from left to right.
#[derive(Clone, Debug, PartialEq, Eq)]
pub struct ListEntry {
    pub spans: Vec<StyledText>,
}

pub struct ListEntryView {
    pub spans: Seq<StyledTextView>,
}

impl View for ListEntry {
    type V = ListEntryView;

    open spec fn view(&self) -> ListEntryView {
        ListEntryView { spans: Seq::new(self.spans@.len(), |i: int| self.spans@[i]@) }
    }
}

/// The entries of a sequence, each as its view.
pub open spec fn entry_views(entries: Seq<ListEntry>) -> Seq<ListEntryView> {
    Seq::new(entries.len(), |i: int| entries[i]@)
}

/// The views of a sequence with one more entry are the views with one more view.
pub proof fn lemma_entry_views_push(entries: Seq<ListEntry>, entry: ListEntry)
    ensures
        entry_views(entries.push(entry)) == entry_views(entries).push(entry@),
{
    assert(entry_views(entries.push(entry)) =~= entry_views(entries).push(entry@));
}

/// The label of a status: the status in square brackets, then a space.
pub open spec fn status_label(status: Seq<char>) -> Seq<char> {
    "["@ + status + "] "@
}

/// The entry of a task: the label of its status in the status's colour, then
/// its title as it is.
pub open spec fn task_entry(task: TaskView) -> ListEntryView {
    ListEntryView {
        spans: seq![
            StyledTextView { text: status_label(task.status), color: Some(color_of(task.status)) },
            StyledTextView { text: task.title, color: None },
        ],
    }
}

/// One entry per task, in the tasks' order.
pub open spec fn task_entries(tasks: Seq<TaskView>) -> Seq<ListEntryView> {
    Seq::new(tasks.len(), |i: int| task_entry(tasks[i]))
}

/// The entry of a status in the status picker: its name in its colour.
pub open spec fn status_entry(status: Seq<char>) -> ListEntryView {
    ListEntryView { spans: seq![StyledTextView { text: status, color: Some(color_of(status)) }] }
}

/// The entries of the status picker: one per status, in presentation order.
pub open spec fn status_entries() -> Seq<ListEntryView> {
    Seq::new(presentation_order().len(), |i: int| status_entry(presentation_order()[i]))
}

impl Task {
    /// The colour in which a status is shown.
    pub fn get_status_color(status: &String) -> (color: StatusColor)
        ensures
            color == color_of(status@),
    {
        if same_text(status.as_str(), TASK_STATUS_DONE) {
            StatusColor::Green
        } else if same_text(status.as_str(), TASK_STATUS_ON_GOING) {
            StatusColor::Yellow
        } else if same_text(status.as_str(), TASK_STATUS_UP_NEXT) {
            StatusColor::Blue
        } else {
            StatusColor::Gray
        }
    }

    /// Replaces `items` by the entries of the status picker: one entry per
    /// status, in presentation order, each the status's name in its colour.
    pub fn load_statues(items: &mut Vec<ListEntry>)
        ensures
            entry_views(final(items)@) == status_entries(),
    {
        items.clear();
        let all = statuses();
        let mut i: usize = 0;
        while i < all.len()
            invariant
                i <= all.len(),
                texts_of(all@) == presentation_order(),
                entry_views(items@) == status_entries().take(i as int),
            decreases all.len() - i,
        {
            let status = String::from_str(all[i]);
            assert(status@ == texts_of(all@)[i as int]);
            let color = Task::get_status_color(&status);
            let mut spans: Vec<StyledText> = Vec::new();
            spans.push(StyledText { text: status, color: Some(color) });
            let entry = ListEntry { spans };
            assert(entry@.spans =~= status_entry(presentation_order()[i as int]).spans);
            proof {
                lemma_entry_views_push(items@, entry);
            }
            items.push(entry);
            i += 1;
            assert(entry_views(items@) =~= status_entries().take(i as int));
        }
        assert(status_entries().take(i as int) =~= status_entries());
    }
}

/// The entry that shows one task.
pub fn render_task(task: &Task) -> (entry: ListEntry)
    ensures
        entry@ == task_entry(task@),
{
    let mut label = String::from_str("[");
    label.append(task.status.as_str());
    label.append("] ");
    let mut spans: Vec<StyledText> = Vec::new();
    spans.push(StyledText { text: label, color: Some(Task::get_status_color(&task.status)) });
    spans.push(StyledText { text: task.title.clone(), color: None });
    let entry = ListEntry { spans };
    assert(entry@.spans =~= task_entry(task@).spans);
    entry
}

/// Replaces `items` by one entry per task, in the tasks' order.
pub fn render_tasks(tasks: &Vec<Task>, items: &mut Vec<ListEntry>)
    ensures
        entry_views(final(items)@) == task_entries(task_views(tasks@)),
{
    items.clear();
    let mut i: usize = 0;
    while i < tasks.len()
        invariant
            i <= tasks.len(),
            entry_views(items@) == task_entries(task_views(tasks@)).take(i as int),
        decreases tasks.len() - i,
    {
        let entry = render_task(&tasks[i]);
        proof {
            lemma_entry_views_push(items@, entry);
        }
        items.push(entry);
        i += 1;
        assert(entry_views(items@) =~= task_entries(task_views(tasks@)).take(i as int));
    }
    assert(task_entries(task_views(tasks@)).take(i as int) =~= task_entries(task_views(tasks@)));
}

} // verus!
