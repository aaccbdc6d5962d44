use taskboard::message::{
    reply_to_create, reply_to_delete, reply_to_save, reply_to_toggle, Effect, Msg,
};
use taskboard::model::Model;
use taskboard::task::Task;

fn held(id: u128, title: &str, description: &str, completed: bool) -> Task {
    Task { id, title: title.to_string(), description: description.to_string(), completed }
}

fn replica() -> Model {
    let mut model = Model::default();
    model.update(
        Msg::TasksLoaded(vec![
            held(1, "one", "first", false),
            held(2, "two", "second", true),
            held(3, "three", "third", false),
        ]),
        false,
    );
    model
}

fn feed(model: &mut Model, msgs: Vec<Msg>) -> Vec<Effect> {
    let mut effects = Vec::new();
    for msg in msgs {
        effects.extend(model.update(msg, false));
    }
    effects
}

#[test]
fn a_created_task_is_appended() {
    let mut model = replica();
    let effects = feed(&mut model, reply_to_create(Ok(held(4, "four", "", false))));
    assert!(effects.is_empty());
    assert_eq!(model.tasks().len(), 4);
    assert_eq!(model.tasks()[3], held(4, "four", "", false));
    assert!(!model.is_in_flight(4));
}

#[test]
fn a_created_task_with_a_known_identifier_replaces_the_stored_one() {
    let mut model = replica();
    feed(&mut model, reply_to_create(Ok(held(2, "again", "", false))));
    assert_eq!(model.tasks().len(), 3);
    assert_eq!(model.tasks()[1], held(2, "again", "", false));
}

#[test]
fn a_failed_create_reports_the_error_and_changes_nothing() {
    let mut model = replica();
    let effects = feed(&mut model, reply_to_create(Err("down".to_string())));
    assert_eq!(effects, vec![Effect::Report("down".to_string())]);
    assert_eq!(model.tasks().len(), 3);
}

#[test]
fn a_confirmed_toggle_ends_the_wait_and_keeps_the_store() {
    let mut model = replica();
    model.update(Msg::ToggleTask(1), false);
    let effects =
        feed(&mut model, reply_to_toggle(1, false, Ok(held(1, "one", "first", true))));
    assert!(effects.is_empty());
    assert!(!model.is_in_flight(1));
    assert_eq!(model.task(1), Some(&held(1, "one", "first", true)));
}

#[test]
fn a_response_with_another_flag_replaces_the_stored_task() {
    let mut model = replica();
    model.update(Msg::ToggleTask(1), false);
    feed(&mut model, reply_to_toggle(1, false, Ok(held(1, "ONE", "normalised", false))));
    assert!(!model.is_in_flight(1));
    assert_eq!(model.task(1), Some(&held(1, "ONE", "normalised", false)));
    assert_eq!(model.tasks().len(), 3);
    assert_eq!(model.tasks()[0].id, 1);
}

#[test]
fn a_response_with_the_same_flag_is_not_written() {
    let mut model = replica();
    model.update(Msg::ToggleTask(1), false);
    feed(&mut model, reply_to_toggle(1, false, Ok(held(1, "ONE", "normalised", true))));
    assert!(!model.is_in_flight(1));
    assert_eq!(model.task(1), Some(&held(1, "one", "first", true)));
}

#[test]
fn a_response_for_an_unknown_task_only_ends_the_wait() {
    let mut model = replica();
    model.update(Msg::SetTaskLoading(9, true), false);
    feed(&mut model, vec![Msg::TaskUpdated(held(9, "nine", "", true))]);
    assert!(!model.is_in_flight(9));
    assert_eq!(model.tasks().len(), 3);
    assert!(model.task(9).is_none());
}

#[test]
fn a_failed_toggle_is_rolled_back_and_reported() {
    let mut model = replica();
    model.update(Msg::ToggleTask(2), false);
    assert_eq!(model.task(2), Some(&held(2, "two", "second", false)));
    let effects = feed(&mut model, reply_to_toggle(2, true, Err("down".to_string())));
    assert_eq!(effects, vec![Effect::Report("down".to_string())]);
    assert_eq!(model.task(2), Some(&held(2, "two", "second", true)));
    assert!(!model.is_in_flight(2));
}

#[test]
fn a_rollback_for_an_unknown_task_only_ends_the_wait() {
    let mut model = replica();
    model.update(Msg::SetTaskLoading(9, true), false);
    feed(&mut model, vec![Msg::RevertTaskToggle(9, true)]);
    assert!(!model.is_in_flight(9));
    assert_eq!(model.tasks().len(), 3);
}

#[test]
fn a_saved_task_replaces_the_stored_one_and_empties_the_drafts() {
    let mut model = replica();
    model.update(Msg::EditTask(3), false);
    model.update(Msg::SetEditTitle("tres".to_string()), false);
    model.update(Msg::SaveEdit(3), false);
    assert_eq!(model.edit_title(), "tres");
    let effects = feed(&mut model, reply_to_save(3, Ok(held(3, "tres", "third", false))));
    assert!(effects.is_empty());
    assert_eq!(model.task(3), Some(&held(3, "tres", "third", false)));
    assert_eq!(model.tasks()[2].id, 3);
    assert!(!model.is_in_flight(3));
    assert_eq!(model.edit_title(), "");
    assert_eq!(model.edit_description(), "");
    assert_eq!(model.editing_task(), None);
}

#[test]
fn a_saved_task_that_is_unknown_is_not_added() {
    let mut model = replica();
    feed(&mut model, vec![Msg::TaskSaved(held(9, "nine", "", false))]);
    assert_eq!(model.tasks().len(), 3);
    assert!(model.task(9).is_none());
}

#[test]
fn a_failed_save_ends_the_wait_and_reports_the_error() {
    let mut model = replica();
    model.update(Msg::EditTask(3), false);
    model.update(Msg::SetEditTitle("tres".to_string()), false);
    model.update(Msg::SaveEdit(3), false);
    assert!(model.is_in_flight(3));
    let effects = feed(&mut model, reply_to_save(3, Err("down".to_string())));
    assert_eq!(effects, vec![Effect::Report("down".to_string())]);
    assert!(!model.is_in_flight(3));
    assert_eq!(model.task(3), Some(&held(3, "three", "third", false)));
}

#[test]
fn a_confirmed_deletion_ends_the_wait() {
    let mut model = replica();
    model.update(Msg::DeleteTask(1), true);
    let effects = feed(&mut model, reply_to_delete(1, Ok(())));
    assert!(effects.is_empty());
    assert!(!model.is_in_flight(1));
    assert!(model.task(1).is_none());
    assert_eq!(model.tasks().len(), 2);
}

#[test]
fn a_failed_deletion_ends_the_wait_and_leaves_the_task_out() {
    let mut model = replica();
    model.update(Msg::DeleteTask(1), true);
    let effects = feed(&mut model, reply_to_delete(1, Err("down".to_string())));
    assert_eq!(effects, vec![Effect::Report("down".to_string())]);
    assert!(!model.is_in_flight(1));
    assert!(model.task(1).is_none());
    assert_eq!(model.tasks().len(), 2);
}

#[test]
fn a_deletion_confirmed_after_a_refresh_removes_the_task_again() {
    let mut model = replica();
    model.update(Msg::DeleteTask(1), true);
    model.update(Msg::TasksLoaded(vec![held(1, "one", "first", false)]), false);
    feed(&mut model, reply_to_delete(1, Ok(())));
    assert!(model.tasks().is_empty());
}
