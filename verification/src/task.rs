//! The task entity and the request bodies of the remote store.

use vstd::prelude::*;

use crate::ident::{fresh_id, is_random_id};

verus! {

/// The mathematical value of a [`Task`].
pub struct TaskView {
    pub id: u128,
    pub title: Seq<char>,
    pub description: Seq<char>,
    pub completed: bool,
}

/// A unit of work. The identifier is assigned once, by the remote store, and
/// never changes; title, description and completion are mutable.
#[derive(Debug, PartialEq, Eq)]
pub struct Task {
    pub id: u128,
    pub title: String,
    pub description: String,
    pub completed: bool,
}

impl View for Task {
    type V = TaskView;

    open spec fn view(&self) -> TaskView {
        TaskView {
            id: self.id,
            title: self.title@,
            description: self.description@,
            completed: self.completed,
        }
    }
}

impl Clone for Task {
    fn clone(&self) -> (r: Self)
        ensures
            r == *self,
    {
        Task {
            id: self.id,
            title: self.title.clone(),
            description: self.description.clone(),
            completed: self.completed,
        }
    }
}

impl Task {
    /// A task that is not completed, under a freshly drawn random identifier.
    pub fn new(title: String, description: String) -> (task: Task)
        ensures
            is_random_id(task.id),
            task.title == title,
            task.description == description,
            !task.completed,
    {
        Task::with_id(fresh_id(), title, description)
    }

    /// A task that is not completed, under the given identifier.
    pub fn with_id(id: u128, title: String, description: String) -> (task: Task)
        ensures
            task == (Task { id, title, description, completed: false }),
    {
        Task { id, title, description, completed: false }
    }
}

/// The value of an optional text.
pub open spec fn text_of(text: Option<String>) -> Option<Seq<char>> {
    match text {
        Some(t) => Some(t@),
        None => None,
    }
}

/// The mathematical value of a [`CreateTaskRequest`].
pub struct CreateTaskRequestView {
    pub title: Seq<char>,
    pub description: Seq<char>,
}

/// The body of a remote create call.
#[derive(Debug, Clone, PartialEq, Eq)]
pub struct CreateTaskRequest {
    pub title: String,
    pub description: String,
}

impl View for CreateTaskRequest {
    type V = CreateTaskRequestView;

    open spec fn view(&self) -> CreateTaskRequestView {
        CreateTaskRequestView { title: self.title@, description: self.description@ }
    }
}

/// The mathematical value of an [`UpdateTaskRequest`].
pub struct UpdateTaskRequestView {
    pub title: Option<Seq<char>>,
    pub description: Option<Seq<char>>,
    pub completed: Option<bool>,
}

/// The body of a remote update call. A field that is `None` is left as it is
/// by the remote store.
#[derive(Debug, Clone, PartialEq, Eq)]
pub struct UpdateTaskRequest {
    pub title: Option<String>,
    pub description: Option<String>,
    pub completed: Option<bool>,
}

impl View for UpdateTaskRequest {
    type V = UpdateTaskRequestView;

    open spec fn view(&self) -> UpdateTaskRequestView {
        UpdateTaskRequestView {
            title: text_of(self.title),
            description: text_of(self.description),
            completed: self.completed,
        }
    }
}

/// `task` after the partial update `request`: each field that the request
/// carries is taken from it, every other field is kept.
pub open spec fn merged(task: TaskView, request: UpdateTaskRequestView) -> TaskView {
    TaskView {
        id: task.id,
        title: match request.title {
            Some(title) => title,
            None => task.title,
        },
        description: match request.description {
            Some(description) => description,
            None => task.description,
        },
        completed: match request.completed {
            Some(completed) => completed,
            None => task.completed,
        },
    }
}

impl UpdateTaskRequest {
    /// The request that changes the completion flag and nothing else.
    pub fn completion(completed: bool) -> (request: UpdateTaskRequest)
        ensures
            request@ == (UpdateTaskRequestView {
                title: None,
                description: None,
                completed: Some(completed),
            }),
    {
        UpdateTaskRequest { title: None, description: None, completed: Some(completed) }
    }

    /// The request that changes title and description and leaves the
    /// completion flag alone.
    pub fn edit(title: String, description: String) -> (request: UpdateTaskRequest)
        ensures
            request@ == (UpdateTaskRequestView {
                title: Some(title@),
                description: Some(description@),
                completed: None,
            }),
    {
        UpdateTaskRequest { title: Some(title), description: Some(description), completed: None }
    }

    /// Applies this partial update to `task`, as the remote store does.
    pub fn apply(self, task: &mut Task)
        ensures
            final(task)@ == merged(old(task)@, self@),
    {
        if let Some(title) = self.title {
            task.title = title;
        }
        if let Some(description) = self.description {
            task.description = description;
        }
        if let Some(completed) = self.completed {
            task.completed = completed;
        }
    }
}

} // verus!
