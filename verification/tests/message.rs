use taskboard::message::{
    reply_to_create, reply_to_delete, reply_to_list, reply_to_save, reply_to_toggle, Msg,
};
use taskboard::page::Page;
use taskboard::task::Task;

fn answered(id: u128, completed: bool) -> Task {
    Task { id, title: "t".to_string(), description: "d".to_string(), completed }
}

#[test]
fn only_destructive_intents_ask_for_confirmation() {
    assert_eq!(
        Msg::DeleteTask(1).confirmation_prompt(),
        Some("Are you sure you want to delete the task?")
    );
    assert_eq!(
        Msg::ClearCompleted.confirmation_prompt(),
        Some("Are you sure you want to clear all completed tasks?")
    );
    assert_eq!(Msg::ToggleTask(1).confirmation_prompt(), None);
    assert_eq!(Msg::TaskDeleted(1).confirmation_prompt(), None);
    assert_eq!(Msg::SaveEdit(1).confirmation_prompt(), None);
    assert_eq!(Msg::CreateTask.confirmation_prompt(), None);
    assert_eq!(Msg::NavigateTo(Page::Tasks).confirmation_prompt(), None);
    assert_eq!(Msg::Error("e".to_string()).confirmation_prompt(), None);
}

#[test]
fn a_list_is_answered_with_the_tasks_or_the_error() {
    assert_eq!(
        reply_to_list(Ok(vec![answered(1, false), answered(2, true)])),
        vec![Msg::TasksLoaded(vec![answered(1, false), answered(2, true)])]
    );
    assert_eq!(reply_to_list(Err("down".to_string())), vec![Msg::Error("down".to_string())]);
}

#[test]
fn a_create_call_is_answered_with_the_task_or_the_error() {
    assert_eq!(reply_to_create(Ok(answered(1, false))), vec![Msg::TaskCreated(answered(1, false))]);
    assert_eq!(reply_to_create(Err("down".to_string())), vec![Msg::Error("down".to_string())]);
}

#[test]
fn a_completion_update_is_answered_with_the_task_or_the_rollback() {
    assert_eq!(
        reply_to_toggle(1, false, Ok(answered(1, true))),
        vec![Msg::TaskUpdated(answered(1, true))]
    );
    assert_eq!(
        reply_to_toggle(1, false, Err("down".to_string())),
        vec![Msg::RevertTaskToggle(1, false), Msg::Error("down".to_string())]
    );
    assert_eq!(
        reply_to_toggle(9, true, Err(String::new())),
        vec![Msg::RevertTaskToggle(9, true), Msg::Error(String::new())]
    );
}

#[test]
fn a_save_is_answered_with_the_task_or_the_end_of_the_wait() {
    assert_eq!(reply_to_save(1, Ok(answered(1, true))), vec![Msg::TaskSaved(answered(1, true))]);
    assert_eq!(
        reply_to_save(1, Err("down".to_string())),
        vec![Msg::SetTaskLoading(1, false), Msg::Error("down".to_string())]
    );
}

#[test]
fn a_deletion_is_answered_with_the_confirmation_or_the_end_of_the_wait() {
    assert_eq!(reply_to_delete(3, Ok(())), vec![Msg::TaskDeleted(3)]);
    assert_eq!(
        reply_to_delete(3, Err("down".to_string())),
        vec![Msg::SetTaskLoading(3, false), Msg::Error("down".to_string())]
    );
}
