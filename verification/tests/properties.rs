use taskboard::message::{reply_to_create, reply_to_delete, reply_to_toggle, Effect, Msg};
use taskboard::model::Model;
use taskboard::task::{CreateTaskRequest, Task};

fn known(id: u128, title: &str, completed: bool) -> Task {
    Task { id, title: title.to_string(), description: String::new(), completed }
}

fn started(tasks: Vec<Task>) -> Model {
    let mut model = Model::default();
    model.update(Msg::TasksLoaded(tasks), false);
    model
}

fn prior_of(effects: &Vec<Effect>) -> bool {
    match &effects[0] {
        Effect::ToggleTask { prior, .. } => *prior,
        other => panic!("no toggle: {:?}", other),
    }
}

#[test]
fn rollback_restores_the_flag_from_before_the_toggle() {
    for flag in [false, true] {
        let mut model = started(vec![known(1, "a", flag), known(2, "b", !flag)]);
        let effects = model.update(Msg::ToggleTask(1), false);
        let prior = prior_of(&effects);
        assert_eq!(prior, flag);
        assert_eq!(model.task(1).unwrap().completed, !flag);
        for msg in reply_to_toggle(1, prior, Err("offline".to_string())) {
            model.update(msg, false);
        }
        assert_eq!(model.tasks(), &vec![known(1, "a", flag), known(2, "b", !flag)]);
    }
}

#[test]
fn rollback_restores_the_flag_after_other_tasks_changed() {
    let mut model = started(vec![known(1, "a", false), known(2, "b", false)]);
    let prior = prior_of(&model.update(Msg::ToggleTask(1), false));
    model.update(Msg::ToggleTask(2), false);
    model.update(Msg::TaskCreated(known(3, "c", false)), false);
    model.update(Msg::DeleteTask(2), true);
    for msg in reply_to_toggle(1, prior, Err("offline".to_string())) {
        model.update(msg, false);
    }
    assert_eq!(model.task(1), Some(&known(1, "a", false)));
    assert_eq!(model.task(3), Some(&known(3, "c", false)));
}

#[test]
fn a_task_is_in_flight_from_dispatch_to_outcome() {
    let mut model = started(vec![known(1, "a", false), known(2, "b", true)]);
    assert!(!model.is_in_flight(1));
    let prior = prior_of(&model.update(Msg::ToggleTask(1), false));
    assert!(model.is_in_flight(1));
    model.update(Msg::SetNewTaskTitle("x".to_string()), false);
    model.update(Msg::EditTask(2), false);
    model.update(Msg::LoadTasks, false);
    assert!(model.is_in_flight(1));
    assert!(!model.is_in_flight(2));
    for msg in reply_to_toggle(1, prior, Ok(known(1, "a", true))) {
        model.update(msg, false);
    }
    assert!(!model.is_in_flight(1));
    model.update(Msg::SaveEdit(2), false);
    assert!(model.is_in_flight(2));
    model.update(Msg::TaskSaved(known(2, "b", true)), false);
    assert!(!model.is_in_flight(2));
    model.update(Msg::DeleteTask(2), true);
    assert!(model.is_in_flight(2));
    for msg in reply_to_delete(2, Err("offline".to_string())) {
        model.update(msg, false);
    }
    assert!(!model.is_in_flight(2));
}

#[test]
fn a_stale_response_does_not_overwrite_a_newer_value() {
    let mut model = started(vec![known(1, "old title", false)]);
    model.update(Msg::ToggleTask(1), false);
    let stale = known(1, "old title", true);
    model.update(Msg::EditTask(1), false);
    model.update(Msg::SetEditTitle("new title".to_string()), false);
    model.update(Msg::SaveEdit(1), false);
    let newer = known(1, "new title", true);
    model.update(Msg::TaskSaved(known(1, "new title", true)), false);
    assert_eq!(model.task(1), Some(&newer));
    model.update(Msg::TaskUpdated(stale), false);
    assert_eq!(model.task(1), Some(&newer));
    assert_eq!(model.tasks().len(), 1);
}

#[test]
fn a_response_is_judged_by_its_flag_and_not_by_its_arrival() {
    let mut model = started(vec![known(1, "a", false)]);
    model.update(Msg::ToggleTask(1), false);
    model.update(Msg::ToggleTask(1), false);
    assert_eq!(model.task(1), Some(&known(1, "a", false)));
    model.update(Msg::TaskUpdated(known(1, "second", false)), false);
    assert_eq!(model.task(1), Some(&known(1, "a", false)));
    model.update(Msg::TaskUpdated(known(1, "first", true)), false);
    assert_eq!(model.task(1), Some(&known(1, "first", true)));
}

#[test]
fn create_with_an_empty_title_does_nothing() {
    let mut model = started(vec![known(1, "a", false)]);
    model.update(Msg::SetNewTaskTitle(String::new()), false);
    model.update(Msg::SetNewTaskDescription("x".to_string()), false);
    let effects = model.update(Msg::CreateTask, false);
    assert!(effects.is_empty());
    assert_eq!(model.tasks(), &vec![known(1, "a", false)]);
    assert_eq!(model.new_task_description(), "x");
}

#[test]
fn create_issues_one_call_and_adds_one_entry_on_success() {
    let mut model = started(vec![known(1, "a", false)]);
    model.update(Msg::SetNewTaskTitle("Buy milk".to_string()), false);
    model.update(Msg::SetNewTaskDescription(String::new()), false);
    let effects = model.update(Msg::CreateTask, false);
    assert_eq!(
        effects,
        vec![Effect::CreateTask(CreateTaskRequest {
            title: "Buy milk".to_string(),
            description: String::new()
        })]
    );
    assert_eq!(model.tasks().len(), 1);
    let created = match effects.into_iter().next() {
        Some(Effect::CreateTask(request)) => Task::new(request.title, request.description),
        other => panic!("no create call: {:?}", other),
    };
    let id = created.id;
    for msg in reply_to_create(Ok(created)) {
        model.update(msg, false);
    }
    assert_eq!(model.tasks().len(), 2);
    assert_eq!(model.tasks()[1], known(id, "Buy milk", false));
    assert_eq!(model.tasks().iter().filter(|t| t.title == "Buy milk").count(), 1);
}

#[test]
fn save_for_another_task_than_the_one_under_edit_does_nothing() {
    let mut model = started(vec![known(1, "a", false), known(2, "b", false)]);
    model.update(Msg::EditTask(1), false);
    model.update(Msg::SetEditTitle("draft".to_string()), false);
    model.update(Msg::EditTask(2), false);
    let effects = model.update(Msg::SaveEdit(1), false);
    assert!(effects.is_empty());
    assert_eq!(model.tasks(), &vec![known(1, "a", false), known(2, "b", false)]);
    assert_eq!(model.edit_buffer(), Some((2, "b", "")));
    assert!(!model.is_in_flight(1));
    assert!(!model.is_in_flight(2));
}

#[test]
fn delete_completed_removes_exactly_the_completed_tasks_at_once() {
    let mut model =
        started(vec![known(1, "a", true), known(2, "b", false), known(3, "c", true)]);
    let effects = model.update(Msg::ClearCompleted, true);
    assert_eq!(effects, vec![Effect::DeleteTask(1), Effect::DeleteTask(3)]);
    assert_eq!(model.tasks(), &vec![known(2, "b", false)]);
    assert!(model.is_in_flight(1));
    assert!(model.is_in_flight(3));
    assert!(!model.is_in_flight(2));
    for msg in reply_to_delete(1, Ok(())) {
        model.update(msg, false);
    }
    assert!(!model.is_in_flight(1));
    assert!(model.is_in_flight(3));
    for msg in reply_to_delete(3, Err("offline".to_string())) {
        model.update(msg, false);
    }
    assert!(!model.is_in_flight(3));
    assert_eq!(model.tasks(), &vec![known(2, "b", false)]);
}
