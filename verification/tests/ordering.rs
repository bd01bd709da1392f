use tasklist::order::sort_tasks;
use tasklist::selection::position_of_title;
use tasklist::task::{duplicate_tasks, Task};

fn task(title: &str, status: &str) -> Task {
    Task { title: title.to_string(), status: status.to_string() }
}

fn titles(tasks: &[Task]) -> Vec<String> {
    tasks.iter().map(|t| t.title.clone()).collect()
}

#[test]
fn sort_puts_on_going_then_up_next_then_done_then_unknown() {
    let tasks = vec![
        task("d", "Done"),
        task("x", "Blocked"),
        task("u", "UpNext"),
        task("o", "OnGoing"),
    ];
    let sorted = sort_tasks(&tasks);
    assert_eq!(
        sorted,
        vec![task("o", "OnGoing"), task("u", "UpNext"), task("d", "Done"), task("x", "Blocked")]
    );
}

#[test]
fn sort_is_stable_within_one_status() {
    let tasks = vec![
        task("d1", "Done"),
        task("u1", "UpNext"),
        task("d2", "Done"),
        task("o1", "OnGoing"),
        task("u2", "UpNext"),
        task("o2", "OnGoing"),
        task("d3", "Done"),
    ];
    let sorted = sort_tasks(&tasks);
    assert_eq!(titles(&sorted), vec!["o1", "o2", "u1", "u2", "d1", "d2", "d3"]);
}

#[test]
fn sort_keeps_unknown_statuses_in_their_order_at_the_end() {
    let tasks = vec![
        task("a", "zzz"),
        task("b", "Done"),
        task("c", ""),
        task("d", "aaa"),
        task("e", "OnGoing"),
    ];
    let sorted = sort_tasks(&tasks);
    assert_eq!(titles(&sorted), vec!["e", "b", "a", "c", "d"]);
}

#[test]
fn sort_leaves_the_argument_as_it_was() {
    let tasks = vec![task("d", "Done"), task("o", "OnGoing")];
    let sorted = sort_tasks(&tasks);
    assert_eq!(titles(&tasks), vec!["d", "o"]);
    assert_eq!(titles(&sorted), vec!["o", "d"]);
}

#[test]
fn sort_of_nothing_is_nothing() {
    assert_eq!(sort_tasks(&Vec::new()), Vec::new());
}

#[test]
fn sort_twice_is_sort_once() {
    let tasks = vec![
        task("d", "Done"),
        task("x", "?"),
        task("u", "UpNext"),
        task("o", "OnGoing"),
        task("u", "UpNext"),
    ];
    let once = sort_tasks(&tasks);
    let twice = sort_tasks(&once);
    assert_eq!(once, twice);
}

#[test]
fn sort_keeps_every_task() {
    let tasks = vec![
        task("same", "Done"),
        task("same", "Done"),
        task("same", "OnGoing"),
        task("other", "nothing"),
    ];
    let mut sorted = sort_tasks(&tasks);
    assert_eq!(sorted.len(), 4);
    let mut before = tasks.clone();
    before.sort_by(|a, b| (&a.title, &a.status).cmp(&(&b.title, &b.status)));
    sorted.sort_by(|a, b| (&a.title, &a.status).cmp(&(&b.title, &b.status)));
    assert_eq!(before, sorted);
}

#[test]
fn duplicate_gives_equal_tasks() {
    let t = task("write", "UpNext");
    assert_eq!(t.duplicate(), t);
    let all = vec![task("a", "Done"), task("b", "x")];
    assert_eq!(duplicate_tasks(&all), all);
}

#[test]
fn position_of_title_is_the_first_match() {
    let tasks = vec![task("a", "OnGoing"), task("b", "UpNext"), task("b", "Done"), task("c", "Done")];
    assert_eq!(position_of_title(&tasks, "a"), 0);
    assert_eq!(position_of_title(&tasks, "b"), 1);
    assert_eq!(position_of_title(&tasks, "c"), 3);
}

#[test]
fn position_of_title_defaults_to_zero() {
    let tasks = vec![task("a", "OnGoing"), task("b", "UpNext")];
    assert_eq!(position_of_title(&tasks, "missing"), 0);
    assert_eq!(position_of_title(&tasks, ""), 0);
    assert_eq!(position_of_title(&Vec::new(), "a"), 0);
}
