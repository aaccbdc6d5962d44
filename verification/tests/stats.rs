use taskboard::stats::{
    average_description_length, completed, completed_count, completion_rate, pending,
    pending_count, percentage,
};
use taskboard::task::Task;

fn counted(id: u128, description: &str, completed: bool) -> Task {
    Task { id, title: format!("t{}", id), description: description.to_string(), completed }
}

fn three() -> Vec<Task> {
    vec![counted(1, "ab", true), counted(2, "abcd", false), counted(3, "abcdef", true)]
}

#[test]
fn percentage_rounds_down() {
    assert_eq!(percentage(1, 3), 33);
    assert_eq!(percentage(2, 3), 66);
    assert_eq!(percentage(3, 3), 100);
    assert_eq!(percentage(0, 3), 0);
    assert_eq!(percentage(1, 200), 0);
}

#[test]
fn percentage_of_nothing_is_zero() {
    assert_eq!(percentage(0, 0), 0);
    assert_eq!(percentage(5, 0), 0);
}

#[test]
fn percentage_may_pass_one_hundred() {
    assert_eq!(percentage(3, 2), 150);
    assert_eq!(percentage(usize::MAX, 1), usize::MAX as u128 * 100);
}

#[test]
fn counts_split_the_list() {
    let tasks = three();
    assert_eq!(completed_count(&tasks), 2);
    assert_eq!(pending_count(&tasks), 1);
    assert_eq!(completed_count(&Vec::new()), 0);
    assert_eq!(pending_count(&Vec::new()), 0);
}

#[test]
fn selections_keep_the_order() {
    let tasks = three();
    let done = completed(&tasks);
    assert_eq!(done.len(), 2);
    assert_eq!(done[0].id, 1);
    assert_eq!(done[1].id, 3);
    let open = pending(&tasks);
    assert_eq!(open.len(), 1);
    assert_eq!(open[0].id, 2);
}

#[test]
fn completion_rate_is_a_whole_percentage() {
    assert_eq!(completion_rate(&three()), 66);
    assert_eq!(completion_rate(&Vec::new()), 0);
    assert_eq!(completion_rate(&vec![counted(1, "", true)]), 100);
    assert_eq!(completion_rate(&vec![counted(1, "", false)]), 0);
}

#[test]
fn average_description_length_counts_bytes() {
    assert_eq!(average_description_length(&three()), 4);
    assert_eq!(average_description_length(&Vec::new()), 0);
    assert_eq!(average_description_length(&vec![counted(1, "abc", false), counted(2, "", false)]), 1);
    assert_eq!(average_description_length(&vec![counted(1, "\u{e9}", false)]), 2);
}
