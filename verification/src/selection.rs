//! The selection cursor: a position in the displayed tasks, found again by
//! the title of the task it pointed at.

use vstd::prelude::*;
use crate::task::{task_views, Task, TaskView};

verus! {

/// Whether some task has the given title.
pub open spec fn has_title(tasks: Seq<TaskView>, title: Seq<char>) -> bool {
    exists|k: int| 0 <= k < tasks.len() && (#[trigger] tasks[k]).title == title
}

/// Whether `index` is the first position whose task has the given title.
pub open spec fn first_with_title(tasks: Seq<TaskView>, title: Seq<char>, index: int) -> bool {
    &&& 0 <= index < tasks.len()
    &&& tasks[index].title == title
    &&& forall|k: int| 0 <= k < index ==> (#[trigger] tasks[k]).title != title
}

/// Where the cursor goes for a remembered title: to the first task with that
/// title, or to position 0 where no task has it.
pub open spec fn reselected(tasks: Seq<TaskView>, title: Seq<char>) -> int {
    if has_title(tasks, title) {
        choose|index: int| first_with_title(tasks, title, index)
    } else {
        0
    }
}

/// The title under the cursor: that of the task it points at, or the empty
/// title where it is unset or past the end.
pub open spec fn remembered_title(tasks: Seq<TaskView>, cursor: Option<int>) -> Seq<char> {
    match cursor {
        Some(index) => if 0 <= index < tasks.len() {
            tasks[index].title
        } else {
            Seq::empty()
        },
        None => Seq::empty(),
    }
}

/// The first position with a title is the one that is reselected.
pub proof fn lemma_reselected_first(tasks: Seq<TaskView>, title: Seq<char>, index: int)
    requires
        first_with_title(tasks, title, index),
    ensures
        has_title(tasks, title),
        reselected(tasks, title) == index,
{
    assert(has_title(tasks, title));
    let chosen = choose|c: int| first_with_title(tasks, title, c);
    assert(first_with_title(tasks, title, chosen));
    if chosen < index {
        assert(tasks[chosen].title != title);
    }
    if index < chosen {
        assert(tasks[index].title != title);
    }
}

/// The reselected position is inside the sequence unless that is empty, and
/// where some task has the title it is the first of them.
pub proof fn lemma_reselected_in_range(tasks: Seq<TaskView>, title: Seq<char>)
    ensures
        0 <= reselected(tasks, title),
        tasks.len() > 0 ==> reselected(tasks, title) < tasks.len(),
        has_title(tasks, title) ==> first_with_title(tasks, title, reselected(tasks, title)),
{
    if has_title(tasks, title) {
        let k = choose|k: int| 0 <= k < tasks.len() && (#[trigger] tasks[k]).title == title;
        lemma_first_exists(tasks, title, k);
    }
}

/// Where position `upto` has the title, some position up to it is the first.
proof fn lemma_first_exists(tasks: Seq<TaskView>, title: Seq<char>, upto: int)
    requires
        0 <= upto < tasks.len(),
        tasks[upto].title == title,
    ensures
        exists|index: int| first_with_title(tasks, title, index),
    decreases upto,
{
    if exists|k: int| 0 <= k < upto && (#[trigger] tasks[k]).title == title {
        let k = choose|k: int| 0 <= k < upto && (#[trigger] tasks[k]).title == title;
        lemma_first_exists(tasks, title, k);
    } else {
        assert(first_with_title(tasks, title, upto));
    }
}

/// The position at which the cursor is put for a remembered title.
pub fn position_of_title(tasks: &Vec<Task>, title: &str) -> (index: usize)
    ensures
        index as int == reselected(task_views(tasks@), title@),
{
    let wanted = title.to_owned();
    let mut i: usize = 0;
    while i < tasks.len()
        invariant
            i <= tasks.len(),
            wanted@ == title@,
            forall|k: int| 0 <= k < i ==> (#[trigger] task_views(tasks@)[k]).title != title@,
        decreases tasks.len() - i,
    {
        if tasks[i].title == wanted {
            proof {
                assert(task_views(tasks@)[i as int].title == title@);
                lemma_reselected_first(task_views(tasks@), title@, i as int);
            }
            return i;
        }
        i += 1;
    }
    assert(!has_title(task_views(tasks@), title@));
    0
}

} // verus!
