use tasklist::render::{ListEntry, StyledText};
use tasklist::status::{same_text, sort_rank, statuses, StatusColor};
use tasklist::status::{TASK_STATUS_DONE, TASK_STATUS_ON_GOING, TASK_STATUS_UP_NEXT};
use tasklist::task::Task;

#[test]
fn status_names() {
    assert_eq!(TASK_STATUS_DONE, "Done");
    assert_eq!(TASK_STATUS_ON_GOING, "OnGoing");
    assert_eq!(TASK_STATUS_UP_NEXT, "UpNext");
}

#[test]
fn statuses_come_in_presentation_order() {
    assert_eq!(statuses(), vec!["UpNext", "OnGoing", "Done"]);
}

#[test]
fn sort_rank_of_each_status() {
    assert_eq!(sort_rank("OnGoing"), 0);
    assert_eq!(sort_rank("UpNext"), 1);
    assert_eq!(sort_rank("Done"), 2);
}

#[test]
fn sort_rank_of_unrecognised_statuses_is_past_the_end() {
    assert_eq!(sort_rank(""), 3);
    assert_eq!(sort_rank("done"), 3);
    assert_eq!(sort_rank("Blocked"), 3);
    assert_eq!(sort_rank("OnGoing "), 3);
}

#[test]
fn presentation_order_differs_from_sort_order() {
    let shown = statuses();
    let ranks: Vec<usize> = shown.iter().map(|s| sort_rank(s)).collect();
    assert_eq!(ranks, vec![1, 0, 2]);
}

#[test]
fn same_text_compares_characters() {
    assert!(same_text("Done", "Done"));
    assert!(!same_text("Done", "done"));
    assert!(!same_text("Done", "Done "));
    assert!(same_text("", ""));
}

#[test]
fn color_of_each_status() {
    assert_eq!(Task::get_status_color(&"Done".to_string()), StatusColor::Green);
    assert_eq!(Task::get_status_color(&"OnGoing".to_string()), StatusColor::Yellow);
    assert_eq!(Task::get_status_color(&"UpNext".to_string()), StatusColor::Blue);
}

#[test]
fn color_of_unrecognised_statuses_is_gray() {
    assert_eq!(Task::get_status_color(&"".to_string()), StatusColor::Gray);
    assert_eq!(Task::get_status_color(&"Blocked".to_string()), StatusColor::Gray);
    assert_eq!(Task::get_status_color(&"DONE".to_string()), StatusColor::Gray);
}

#[test]
fn load_statues_replaces_the_entries() {
    let mut items = vec![ListEntry { spans: vec![] }, ListEntry { spans: vec![] }];
    Task::load_statues(&mut items);
    let expected = vec![
        ListEntry {
            spans: vec![StyledText { text: "UpNext".to_string(), color: Some(StatusColor::Blue) }],
        },
        ListEntry {
            spans: vec![StyledText { text: "OnGoing".to_string(), color: Some(StatusColor::Yellow) }],
        },
        ListEntry {
            spans: vec![StyledText { text: "Done".to_string(), color: Some(StatusColor::Green) }],
        },
    ];
    assert_eq!(items, expected);
}

#[test]
fn load_statues_twice_gives_three_entries() {
    let mut items = Vec::new();
    Task::load_statues(&mut items);
    Task::load_statues(&mut items);
    assert_eq!(items.len(), 3);
}
