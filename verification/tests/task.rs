use taskboard::ident::{RANDOM_VERSION_VARIANT, VERSION_VARIANT_MASK};
use taskboard::task::{CreateTaskRequest, Task, UpdateTaskRequest};

fn sample() -> Task {
    Task {
        id: 42,
        title: "Buy milk".to_string(),
        description: "two litres".to_string(),
        completed: false,
    }
}

#[test]
fn new_task_is_pending_and_keeps_its_texts() {
    let task = Task::new("Buy milk".to_string(), "two litres".to_string());
    assert_eq!(task.title, "Buy milk");
    assert_eq!(task.description, "two litres");
    assert!(!task.completed);
}

#[test]
fn new_task_has_a_random_uuid() {
    let task = Task::new(String::new(), String::new());
    assert_eq!(task.id & VERSION_VARIANT_MASK, RANDOM_VERSION_VARIANT);
    let uuid = uuid::Uuid::from_u128(task.id);
    assert_eq!(uuid.get_version_num(), 4);
    assert_eq!(uuid.get_variant(), uuid::Variant::RFC4122);
}

#[test]
fn new_tasks_differ_in_their_identifiers() {
    let a = Task::new("a".to_string(), String::new());
    let b = Task::new("a".to_string(), String::new());
    assert_ne!(a.id, b.id);
}

#[test]
fn with_id_takes_the_identifier_given() {
    let task = Task::with_id(7, "t".to_string(), "d".to_string());
    assert_eq!(
        task,
        Task { id: 7, title: "t".to_string(), description: "d".to_string(), completed: false }
    );
}

#[test]
fn clone_is_equal() {
    let task = sample();
    assert_eq!(task.clone(), task);
}

#[test]
fn completion_request_carries_the_flag_only() {
    assert_eq!(
        UpdateTaskRequest::completion(true),
        UpdateTaskRequest { title: None, description: None, completed: Some(true) }
    );
    assert_eq!(
        UpdateTaskRequest::completion(false),
        UpdateTaskRequest { title: None, description: None, completed: Some(false) }
    );
}

#[test]
fn edit_request_carries_the_texts_only() {
    assert_eq!(
        UpdateTaskRequest::edit("t".to_string(), "d".to_string()),
        UpdateTaskRequest {
            title: Some("t".to_string()),
            description: Some("d".to_string()),
            completed: None
        }
    );
}

#[test]
fn apply_of_a_completion_request_keeps_the_texts() {
    let mut task = sample();
    UpdateTaskRequest::completion(true).apply(&mut task);
    assert_eq!(
        task,
        Task {
            id: 42,
            title: "Buy milk".to_string(),
            description: "two litres".to_string(),
            completed: true
        }
    );
}

#[test]
fn apply_of_an_edit_request_keeps_the_flag() {
    let mut task = sample();
    task.completed = true;
    UpdateTaskRequest::edit("Buy bread".to_string(), String::new()).apply(&mut task);
    assert_eq!(
        task,
        Task { id: 42, title: "Buy bread".to_string(), description: String::new(), completed: true }
    );
}

#[test]
fn apply_of_an_empty_request_changes_nothing() {
    let mut task = sample();
    UpdateTaskRequest { title: None, description: None, completed: None }.apply(&mut task);
    assert_eq!(task, sample());
}

#[test]
fn apply_of_a_full_request_changes_every_field_but_the_identifier() {
    let mut task = sample();
    UpdateTaskRequest {
        title: Some("x".to_string()),
        description: Some("y".to_string()),
        completed: Some(true),
    }
    .apply(&mut task);
    assert_eq!(
        task,
        Task { id: 42, title: "x".to_string(), description: "y".to_string(), completed: true }
    );
}

#[test]
fn create_request_holds_its_fields() {
    let request = CreateTaskRequest { title: "a".to_string(), description: "b".to_string() };
    assert_eq!(request.title, "a");
    assert_eq!(request.description, "b");
}
