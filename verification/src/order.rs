//! The displayed order of tasks: a stable ordering by status rank.

use vstd::prelude::*;
use crate::status::{rank_of, sort_rank};
use crate::task::{lemma_task_views_push, task_views, Task, TaskView};

verus! {

/// The tasks of the given rank, in the order in which they stand in `tasks`.
pub open spec fn with_rank(tasks: Seq<TaskView>, rank: nat) -> Seq<TaskView>
    decreases tasks.len(),
{
    if tasks.len() == 0 {
        Seq::empty()
    } else {
        let before = with_rank(tasks.drop_last(), rank);
        if rank_of(tasks.last().status) == rank {
            before.push(tasks.last())
        } else {
            before
        }
    }
}

/// The displayed order: the tasks of rank 0, then those of rank 1, of rank 2
/// and of the unknown rank, each group in the order in which it was given.
pub open spec fn sorted_by_status(tasks: Seq<TaskView>) -> Seq<TaskView> {
    with_rank(tasks, 0) + with_rank(tasks, 1) + with_rank(tasks, 2) + with_rank(tasks, 3)
}

/// Whether the ranks never decrease along the sequence.
pub open spec fn ranks_ascend(tasks: Seq<TaskView>) -> bool {
    forall|i: int, j: int|
        0 <= i <= j < tasks.len() ==> rank_of(#[trigger] tasks[i].status) <= rank_of(
            #[trigger] tasks[j].status,
        )
}

/// Every task of `with_rank(tasks, rank)` has that rank, and there are no
/// more of them than tasks.
pub proof fn lemma_with_rank_members(tasks: Seq<TaskView>, rank: nat)
    ensures
        with_rank(tasks, rank).len() <= tasks.len(),
        forall|i: int|
            0 <= i < with_rank(tasks, rank).len() ==> rank_of(
                #[trigger] with_rank(tasks, rank)[i].status,
            ) == rank,
    decreases tasks.len(),
{
    if tasks.len() > 0 {
        lemma_with_rank_members(tasks.drop_last(), rank);
    }
}

/// Selecting by rank goes through concatenation.
pub proof fn lemma_with_rank_concat(a: Seq<TaskView>, b: Seq<TaskView>, rank: nat)
    ensures
        with_rank(a + b, rank) == with_rank(a, rank) + with_rank(b, rank),
    decreases b.len(),
{
    if b.len() == 0 {
        assert(a + b =~= a);
        assert(with_rank(a, rank) + with_rank(b, rank) =~= with_rank(a, rank));
    } else {
        lemma_with_rank_concat(a, b.drop_last(), rank);
        assert((a + b).drop_last() =~= a + b.drop_last());
        assert((a + b).last() == b.last());
        assert(with_rank(a + b, rank) =~= with_rank(a, rank) + with_rank(b, rank));
    }
}

/// Where all tasks have one rank, selecting that rank keeps them all and
/// selecting another keeps none.
pub proof fn lemma_with_rank_uniform(tasks: Seq<TaskView>, own: nat, rank: nat)
    requires
        forall|i: int| 0 <= i < tasks.len() ==> rank_of(#[trigger] tasks[i].status) == own,
    ensures
        rank == own ==> with_rank(tasks, rank) == tasks,
        rank != own ==> with_rank(tasks, rank) == Seq::<TaskView>::empty(),
    decreases tasks.len(),
{
    if tasks.len() > 0 {
        lemma_with_rank_uniform(tasks.drop_last(), own, rank);
        assert(rank_of(tasks[tasks.len() - 1].status) == own);
        if rank == own {
            assert(tasks.drop_last().push(tasks.last()) =~= tasks);
        }
    } else {
        assert(tasks =~= Seq::<TaskView>::empty());
    }
}

/// The tasks in displayed order: ordered by status rank, tasks of equal rank
/// in the order in which they were given.
pub fn sort_tasks(tasks: &Vec<Task>) -> (sorted: Vec<Task>)
    ensures
        task_views(sorted@) == sorted_by_status(task_views(tasks@)),
{
    let mut on_going: Vec<Task> = Vec::new();
    let mut up_next: Vec<Task> = Vec::new();
    let mut done: Vec<Task> = Vec::new();
    let mut other: Vec<Task> = Vec::new();
    let ghost all = task_views(tasks@);
    let mut i: usize = 0;
    assert(all.take(0).len() == 0);
    while i < tasks.len()
        invariant
            i <= tasks.len(),
            all == task_views(tasks@),
            task_views(on_going@) =~= with_rank(all.take(i as int), 0),
            task_views(up_next@) =~= with_rank(all.take(i as int), 1),
            task_views(done@) =~= with_rank(all.take(i as int), 2),
            task_views(other@) =~= with_rank(all.take(i as int), 3),
        decreases tasks.len() - i,
    {
        let task = tasks[i].duplicate();
        let rank: usize = sort_rank(task.status.as_str());
        proof {
            assert(all.take(i + 1).drop_last() =~= all.take(i as int));
            assert(all.take(i + 1).last() == task@);
        }
        if rank == 0 {
            proof {
                lemma_task_views_push(on_going@, task);
            }
            on_going.push(task);
        } else if rank == 1 {
            proof {
                lemma_task_views_push(up_next@, task);
            }
            up_next.push(task);
        } else if rank == 2 {
            proof {
                lemma_task_views_push(done@, task);
            }
            done.push(task);
        } else {
            proof {
                lemma_task_views_push(other@, task);
            }
            other.push(task);
        }
        i += 1;
    }
    assert(all.take(i as int) =~= all);
    let ghost first = on_going@;
    let ghost second = up_next@;
    let ghost third = done@;
    let ghost fourth = other@;
    on_going.append(&mut up_next);
    on_going.append(&mut done);
    on_going.append(&mut other);
    assert(task_views(first + second + third + fourth) =~= task_views(first) + task_views(second)
        + task_views(third) + task_views(fourth));
    on_going
}

} // verus!
