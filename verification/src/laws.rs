//! What holds of the displayed order and of the controller, for all inputs.

use vstd::prelude::*;
use vstd::seq_lib::{lemma_multiset_commutative, to_multiset_build, to_multiset_contains};
use vstd::seq_lib::to_multiset_remove;
use crate::controller::{created, cursor_after_load, deleted, loaded, new_task, replaced};
use crate::order::{lemma_with_rank_concat, lemma_with_rank_members, lemma_with_rank_uniform};
use crate::order::{ranks_ascend, sorted_by_status, with_rank};
use crate::selection::{first_with_title, has_title, lemma_reselected_first};
use crate::selection::{lemma_reselected_in_range, remembered_title, reselected};
use crate::state::AppView;
use crate::status::{rank_of, unknown_rank};
use crate::status::{TASK_STATUS_DONE, TASK_STATUS_ON_GOING, TASK_STATUS_UP_NEXT};
use crate::task::TaskView;

verus! {

/// `OnGoing` ranks before `UpNext`, `UpNext` before `Done`, and `Done` before
/// every other status; all other statuses share one rank.
pub proof fn law_rank_order(status: Seq<char>)
    ensures
        rank_of(TASK_STATUS_ON_GOING@) == 0,
        rank_of(TASK_STATUS_UP_NEXT@) == 1,
        rank_of(TASK_STATUS_DONE@) == 2,
        rank_of(status) <= unknown_rank(),
        rank_of(status) == unknown_rank() <==> status != TASK_STATUS_ON_GOING@ && status
            != TASK_STATUS_UP_NEXT@ && status != TASK_STATUS_DONE@,
{
    reveal_strlit("OnGoing");
    reveal_strlit("UpNext");
    reveal_strlit("Done");
    assert(TASK_STATUS_ON_GOING@.len() == 7);
    assert(TASK_STATUS_UP_NEXT@.len() == 6);
    assert(TASK_STATUS_DONE@.len() == 4);
}

/// In the displayed order the ranks never decrease.
pub proof fn law_sorted_ranks_ascend(tasks: Seq<TaskView>)
    ensures
        ranks_ascend(sorted_by_status(tasks)),
{
    lemma_with_rank_members(tasks, 0);
    lemma_with_rank_members(tasks, 1);
    lemma_with_rank_members(tasks, 2);
    lemma_with_rank_members(tasks, 3);
    let a = with_rank(tasks, 0);
    let b = with_rank(tasks, 1);
    let c = with_rank(tasks, 2);
    let d = with_rank(tasks, 3);
    let sorted = sorted_by_status(tasks);
    assert forall|i: int| 0 <= i < sorted.len() implies rank_of(#[trigger] sorted[i].status) == (if i
        < a.len() {
        0nat
    } else if i < a.len() + b.len() {
        1nat
    } else if i < a.len() + b.len() + c.len() {
        2nat
    } else {
        3nat
    }) by {
        if i < a.len() {
            assert(sorted[i] == a[i]);
        } else if i < a.len() + b.len() {
            assert(sorted[i] == b[i - a.len()]);
        } else if i < a.len() + b.len() + c.len() {
            assert(sorted[i] == c[i - a.len() - b.len()]);
        } else {
            assert(sorted[i] == d[i - a.len() - b.len() - c.len()]);
        }
    }
}

/// Ordering is stable: the tasks of any one rank stand in the displayed order
/// as they stood before.
pub proof fn law_sort_is_stable(tasks: Seq<TaskView>, rank: nat)
    ensures
        with_rank(sorted_by_status(tasks), rank) == with_rank(tasks, rank),
{
    let a = with_rank(tasks, 0);
    let b = with_rank(tasks, 1);
    let c = with_rank(tasks, 2);
    let d = with_rank(tasks, 3);
    lemma_with_rank_members(tasks, 0);
    lemma_with_rank_members(tasks, 1);
    lemma_with_rank_members(tasks, 2);
    lemma_with_rank_members(tasks, 3);
    lemma_with_rank_uniform(a, 0, rank);
    lemma_with_rank_uniform(b, 1, rank);
    lemma_with_rank_uniform(c, 2, rank);
    lemma_with_rank_uniform(d, 3, rank);
    lemma_with_rank_concat(a + b + c, d, rank);
    lemma_with_rank_concat(a + b, c, rank);
    lemma_with_rank_concat(a, b, rank);
    if rank > 3 {
        lemma_with_rank_members(tasks, rank);
        if with_rank(tasks, rank).len() > 0 {
            assert(rank_of(with_rank(tasks, rank)[0].status) == rank);
        }
    }
    assert(with_rank(sorted_by_status(tasks), rank) =~= with_rank(tasks, rank));
}

/// Ordering keeps every task, as often as it occurred.
pub proof fn law_sort_keeps_tasks(tasks: Seq<TaskView>)
    ensures
        sorted_by_status(tasks).to_multiset() == tasks.to_multiset(),
        sorted_by_status(tasks).len() == tasks.len(),
    decreases tasks.len(),
{
    broadcast use vstd::multiset::group_multiset_axioms;

    let a = with_rank(tasks, 0);
    let b = with_rank(tasks, 1);
    let c = with_rank(tasks, 2);
    let d = with_rank(tasks, 3);
    lemma_multiset_commutative(a + b + c, d);
    lemma_multiset_commutative(a + b, c);
    lemma_multiset_commutative(a, b);
    if tasks.len() == 0 {
        assert(sorted_by_status(tasks) =~= tasks);
    } else {
        let rest = tasks.drop_last();
        let last = tasks.last();
        law_sort_keeps_tasks(rest);
        let ra = with_rank(rest, 0);
        let rb = with_rank(rest, 1);
        let rc = with_rank(rest, 2);
        let rd = with_rank(rest, 3);
        lemma_multiset_commutative(ra + rb + rc, rd);
        lemma_multiset_commutative(ra + rb, rc);
        lemma_multiset_commutative(ra, rb);
        to_multiset_build(ra, last);
        to_multiset_build(rb, last);
        to_multiset_build(rc, last);
        to_multiset_build(rd, last);
        to_multiset_build(rest, last);
        assert(rest.push(last) =~= tasks);
        assert(sorted_by_status(tasks).to_multiset() =~= tasks.to_multiset());
    }
    tasks.to_multiset_ensures();
    sorted_by_status(tasks).to_multiset_ensures();
}

/// Ordering what is ordered changes nothing.
pub proof fn law_sort_idempotent(tasks: Seq<TaskView>)
    ensures
        sorted_by_status(sorted_by_status(tasks)) == sorted_by_status(tasks),
{
    law_sort_is_stable(tasks, 0);
    law_sort_is_stable(tasks, 1);
    law_sort_is_stable(tasks, 2);
    law_sort_is_stable(tasks, 3);
}

/// After the display was recomputed the cursor is on the first displayed
/// task with the title that was under it, where a displayed task has that
/// title, and on position 0 otherwise; it is unset only where there are no
/// tasks and it was unset before. A cursor that pointed at a task points at
/// the first displayed task with that task's title.
pub proof fn law_cursor_follows_title(tasks: Seq<TaskView>, cursor: Option<int>)
    ensures
        cursor_after_load(tasks, cursor) is None <==> tasks.len() == 0 && cursor is None,
        cursor_after_load(tasks, cursor) matches Some(index) ==> {
            let title = remembered_title(tasks, cursor);
            let shown = sorted_by_status(tasks);
            if has_title(shown, title) {
                first_with_title(shown, title, index)
            } else {
                index == 0
            }
        },
        cursor is Some && 0 <= cursor.unwrap() < tasks.len() ==> first_with_title(
            sorted_by_status(tasks),
            tasks[cursor.unwrap()].title,
            cursor_after_load(tasks, cursor).unwrap(),
        ),
{
    let shown = sorted_by_status(tasks);
    lemma_reselected_in_range(shown, remembered_title(tasks, cursor));
    if let Some(at) = cursor {
        if 0 <= at < tasks.len() {
            law_sort_keeps_tasks(tasks);
            assert(tasks.contains(tasks[at]));
            to_multiset_contains(tasks, tasks[at]);
            to_multiset_contains(shown, tasks[at]);
            assert(shown.contains(tasks[at]));
            let k = choose|k: int| 0 <= k < shown.len() && shown[k] == tasks[at];
            assert(shown[k].title == tasks[at].title);
            assert(has_title(shown, tasks[at].title));
        }
    }
}

/// Recomputing the display twice in a row gives what recomputing it once
/// gives: the same collection and the same cursor.
pub proof fn law_load_idempotent(app: AppView)
    requires
        app.project_selected(),
    ensures
        loaded(loaded(app)) == loaded(app),
{
    let tasks = app.tasks();
    let shown = sorted_by_status(tasks);
    let once = loaded(app);
    law_sort_idempotent(tasks);
    law_sort_keeps_tasks(tasks);
    assert(once.tasks() == shown);
    assert(loaded(once).projects =~= once.projects);
    match once.selected_task {
        None => {},
        Some(index) => {
            let title = remembered_title(tasks, app.selected_task);
            lemma_reselected_in_range(shown, title);
            if has_title(shown, title) {
                lemma_reselected_first(shown, title, index);
            } else if shown.len() > 0 {
                assert(first_with_title(shown, shown[0].title, 0));
                lemma_reselected_first(shown, shown[0].title, 0);
            } else {
                assert(!has_title(shown, Seq::<char>::empty()));
            }
        },
    }
}

/// Creating a task with a title, putting the cursor on it and deleting it
/// gives back the tasks that were there before, each as often as before;
/// their order may have changed. The other projects and the selected
/// project's name stay.
pub proof fn law_create_then_delete(app: AppView, title: Seq<char>, index: int)
    requires
        app.project_selected(),
        title.len() > 0,
        ({
            let after_create = loaded(replaced(app, created(app, title)));
            0 <= index < after_create.tasks().len() && after_create.tasks()[index] == new_task(
                title,
            )
        }),
    ensures
        ({
            let after_create = loaded(replaced(app, created(app, title)));
            let on_new = AppView { selected_task: Some(index), ..after_create };
            let after_delete = loaded(replaced(on_new, deleted(on_new)));
            &&& on_new.task_selected()
            &&& after_delete.tasks().to_multiset() == app.tasks().to_multiset()
            &&& after_delete.projects == app.with_tasks(after_delete.tasks())
        }),
{
    broadcast use vstd::multiset::group_multiset_axioms;

    let grown = app.tasks().push(new_task(title));
    let after_create = loaded(replaced(app, created(app, title)));
    let on_new = AppView { selected_task: Some(index), ..after_create };
    let after_delete = loaded(replaced(on_new, deleted(on_new)));
    assert(after_create.tasks() == sorted_by_status(grown));
    law_sort_keeps_tasks(grown);
    to_multiset_build(app.tasks(), new_task(title));
    let shrunk = sorted_by_status(grown).remove(index);
    to_multiset_remove(sorted_by_status(grown), index);
    assert(shrunk.to_multiset() =~= app.tasks().to_multiset());
    assert(after_delete.tasks() == sorted_by_status(shrunk));
    law_sort_keeps_tasks(shrunk);
    assert(after_delete.projects =~= app.with_tasks(after_delete.tasks()));
}

} // verus!
