//! The status registry: the recognised statuses, the order in which they are
//! offered for picking, the order in which they sort, and their colours.

use vstd::prelude::*;

verus! {

pub const TASK_STATUS_DONE: &'static str = "Done";

pub const TASK_STATUS_ON_GOING: &'static str = "OnGoing";

pub const TASK_STATUS_UP_NEXT: &'static str = "UpNext";

/// The colour in which a status is shown.
#[derive(Clone, Copy, Debug, PartialEq, Eq, Structural)]
pub enum StatusColor {
    Green,
    Yellow,
    Blue,
    Gray,
}

/// The rank that every unrecognised status gets: one past the recognised ones.
pub open spec fn unknown_rank() -> nat {
    3
}

/// The sort rank of a status: `OnGoing` first, then `UpNext`, then `Done`,
/// then everything else.
pub open spec fn rank_of(status: Seq<char>) -> nat {
    if status == TASK_STATUS_ON_GOING@ {
        0
    } else if status == TASK_STATUS_UP_NEXT@ {
        1
    } else if status == TASK_STATUS_DONE@ {
        2
    } else {
        unknown_rank()
    }
}

/// The colour of a status: green for `Done`, yellow for `OnGoing`, blue for
/// `UpNext`, gray for everything else.
pub open spec fn color_of(status: Seq<char>) -> StatusColor {
    if status == TASK_STATUS_DONE@ {
        StatusColor::Green
    } else if status == TASK_STATUS_ON_GOING@ {
        StatusColor::Yellow
    } else if status == TASK_STATUS_UP_NEXT@ {
        StatusColor::Blue
    } else {
        StatusColor::Gray
    }
}

/// The statuses in the order in which they are offered for picking.
pub open spec fn presentation_order() -> Seq<Seq<char>> {
    seq![TASK_STATUS_UP_NEXT@, TASK_STATUS_ON_GOING@, TASK_STATUS_DONE@]
}

/// The texts of a sequence of names.
pub open spec fn texts_of(names: Seq<&'static str>) -> Seq<Seq<char>> {
    Seq::new(names.len(), |i: int| names[i]@)
}

/// Whether two texts hold the same characters.
pub fn same_text(a: &str, b: &str) -> (same: bool)
    ensures
        same == (a@ == b@),
{
    let left = a.to_owned();
    let right = b.to_owned();
    left == right
}

/// The rank by which a task with this status is ordered in the displayed list.
pub fn sort_rank(status: &str) -> (rank: usize)
    ensures
        rank == rank_of(status@),
{
    if same_text(status, TASK_STATUS_ON_GOING) {
        0
    } else if same_text(status, TASK_STATUS_UP_NEXT) {
        1
    } else if same_text(status, TASK_STATUS_DONE) {
        2
    } else {
        3
    }
}

/// The recognised statuses, in presentation order.
pub fn statuses() -> (all: Vec<&'static str>)
    ensures
        texts_of(all@) == presentation_order(),
{
    let mut all: Vec<&'static str> = Vec::new();
    all.push(TASK_STATUS_UP_NEXT);
    all.push(TASK_STATUS_ON_GOING);
    all.push(TASK_STATUS_DONE);
    assert(texts_of(all@) =~= presentation_order());
    all
}

} // verus!
