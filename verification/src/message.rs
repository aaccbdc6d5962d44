//! What goes into the state machine and what comes out of it.
//!
//! A [`Msg`] is a user intent or the outcome of a remote call. An [`Effect`]
//! is work that the surrounding program must carry out: a remote call, a
//! change of the browser's address, an error to show. The functions at the
//! end turn the outcome of each remote call into the messages to feed back.

use vstd::prelude::*;

use crate::page::Page;
use crate::store::views;
use crate::task::{
    CreateTaskRequest, CreateTaskRequestView, Task, TaskView, UpdateTaskRequest,
    UpdateTaskRequestView,
};

verus! {

/// The mathematical value of a [`Msg`].
pub enum MsgView {
    NavigateTo(Page),
    RouteChanged(Seq<char>),
    LoadTasks,
    TasksLoaded(Seq<TaskView>),
    SetNewTaskTitle(Seq<char>),
    SetNewTaskDescription(Seq<char>),
    CreateTask,
    TaskCreated(TaskView),
    ToggleTask(u128),
    TaskUpdated(TaskView),
    RevertTaskToggle(u128, bool),
    DeleteTask(u128),
    TaskDeleted(u128),
    EditTask(u128),
    SetEditTitle(Seq<char>),
    SetEditDescription(Seq<char>),
    SaveEdit(u128),
    TaskSaved(TaskView),
    CancelEdit,
    ClearCompleted,
    ToggleCompletedSection,
    SetTaskLoading(u128, bool),
    Error(Seq<char>),
}

/// A user intent, or the outcome of a remote call.
#[derive(Debug, Clone, PartialEq, Eq)]
pub enum Msg {
    /// Show a page and record it in the browser's history.
    NavigateTo(Page),
    /// The browser's address changed to this path.
    RouteChanged(String),
    /// Refresh the whole list from the remote store.
    LoadTasks,
    /// The remote store answered a refresh with these tasks.
    TasksLoaded(Vec<Task>),
    /// The title field of the create form changed.
    SetNewTaskTitle(String),
    /// The description field of the create form changed.
    SetNewTaskDescription(String),
    /// Create a task from the create form.
    CreateTask,
    /// The remote store created the task.
    TaskCreated(Task),
    /// Flip the completion of a task.
    ToggleTask(u128),
    /// The remote store answered a completion update with the task.
    TaskUpdated(Task),
    /// A completion update failed; the flag was this before it.
    RevertTaskToggle(u128, bool),
    /// Delete a task.
    DeleteTask(u128),
    /// The remote store deleted the task.
    TaskDeleted(u128),
    /// Start editing a task.
    EditTask(u128),
    /// The title of the draft changed.
    SetEditTitle(String),
    /// The description of the draft changed.
    SetEditDescription(String),
    /// Save the draft to the task.
    SaveEdit(u128),
    /// The remote store answered a save with the task.
    TaskSaved(Task),
    /// Stop editing and drop the draft.
    CancelEdit,
    /// Delete every completed task.
    ClearCompleted,
    /// Show or hide the completed tasks.
    ToggleCompletedSection,
    /// Mark a task as awaiting a response, or as no longer awaiting one.
    SetTaskLoading(u128, bool),
    /// A remote call failed with this message.
    Error(String),
}

impl View for Msg {
    type V = MsgView;

    open spec fn view(&self) -> MsgView {
        match *self {
            Msg::NavigateTo(page) => MsgView::NavigateTo(page),
            Msg::RouteChanged(path) => MsgView::RouteChanged(path@),
            Msg::LoadTasks => MsgView::LoadTasks,
            Msg::TasksLoaded(tasks) => MsgView::TasksLoaded(views(tasks@)),
            Msg::SetNewTaskTitle(title) => MsgView::SetNewTaskTitle(title@),
            Msg::SetNewTaskDescription(description) => MsgView::SetNewTaskDescription(
                description@,
            ),
            Msg::CreateTask => MsgView::CreateTask,
            Msg::TaskCreated(task) => MsgView::TaskCreated(task@),
            Msg::ToggleTask(id) => MsgView::ToggleTask(id),
            Msg::TaskUpdated(task) => MsgView::TaskUpdated(task@),
            Msg::RevertTaskToggle(id, prior) => MsgView::RevertTaskToggle(id, prior),
            Msg::DeleteTask(id) => MsgView::DeleteTask(id),
            Msg::TaskDeleted(id) => MsgView::TaskDeleted(id),
            Msg::EditTask(id) => MsgView::EditTask(id),
            Msg::SetEditTitle(title) => MsgView::SetEditTitle(title@),
            Msg::SetEditDescription(description) => MsgView::SetEditDescription(description@),
            Msg::SaveEdit(id) => MsgView::SaveEdit(id),
            Msg::TaskSaved(task) => MsgView::TaskSaved(task@),
            Msg::CancelEdit => MsgView::CancelEdit,
            Msg::ClearCompleted => MsgView::ClearCompleted,
            Msg::ToggleCompletedSection => MsgView::ToggleCompletedSection,
            Msg::SetTaskLoading(id, loading) => MsgView::SetTaskLoading(id, loading),
            Msg::Error(text) => MsgView::Error(text@),
        }
    }
}

/// The values of a sequence of messages, in order.
pub open spec fn msg_views(msgs: Seq<Msg>) -> Seq<MsgView> {
    msgs.map_values(|m: Msg| m@)
}

/// The question to put to the user before `msg` is acted on, where `msg` is
/// destructive.
pub open spec fn prompt_of(msg: MsgView) -> Option<Seq<char>> {
    match msg {
        MsgView::DeleteTask(_) => Some("Are you sure you want to delete the task?"@),
        MsgView::ClearCompleted => Some("Are you sure you want to clear all completed tasks?"@),
        _ => None,
    }
}

impl Msg {
    /// The question to put to the user before this message is acted on:
    /// `Some` for the two destructive intents, `None` for every other
    /// message. The answer is the `confirmed` argument of the update.
    pub fn confirmation_prompt(&self) -> (prompt: Option<&'static str>)
        ensures
            match prompt {
                Some(text) => prompt_of(self@) == Some(text@),
                None => prompt_of(self@).is_none(),
            },
    {
        match self {
            Msg::DeleteTask(_) => Some("Are you sure you want to delete the task?"),
            Msg::ClearCompleted => Some("Are you sure you want to clear all completed tasks?"),
            _ => None,
        }
    }
}

/// The mathematical value of an [`Effect`].
pub enum EffectView {
    PushUrl(Seq<char>),
    Reload,
    FetchTasks,
    CreateTask(CreateTaskRequestView),
    ToggleTask { id: u128, request: UpdateTaskRequestView, prior: bool },
    SaveTask { id: u128, request: UpdateTaskRequestView },
    DeleteTask(u128),
    Report(Seq<char>),
}

/// Work that the surrounding program carries out after an update.
#[derive(Debug, Clone, PartialEq, Eq)]
pub enum Effect {
    /// Put this path into the browser's address, without a page load.
    PushUrl(String),
    /// Feed `Msg::LoadTasks` back.
    Reload,
    /// List the tasks of the remote store; answer with `reply_to_list`.
    FetchTasks,
    /// Create a task remotely; answer with `reply_to_create`.
    CreateTask(CreateTaskRequest),
    /// Update the completion of task `id` remotely; `prior` is the flag
    /// before the optimistic write. Answer with `reply_to_toggle`.
    ToggleTask { id: u128, request: UpdateTaskRequest, prior: bool },
    /// Update title and description of task `id` remotely; answer with
    /// `reply_to_save`.
    SaveTask { id: u128, request: UpdateTaskRequest },
    /// Delete task `id` remotely; answer with `reply_to_delete`.
    DeleteTask(u128),
    /// Show this error.
    Report(String),
}

impl View for Effect {
    type V = EffectView;

    open spec fn view(&self) -> EffectView {
        match *self {
            Effect::PushUrl(path) => EffectView::PushUrl(path@),
            Effect::Reload => EffectView::Reload,
            Effect::FetchTasks => EffectView::FetchTasks,
            Effect::CreateTask(request) => EffectView::CreateTask(request@),
            Effect::ToggleTask { id, request, prior } => EffectView::ToggleTask {
                id,
                request: request@,
                prior,
            },
            Effect::SaveTask { id, request } => EffectView::SaveTask { id, request: request@ },
            Effect::DeleteTask(id) => EffectView::DeleteTask(id),
            Effect::Report(text) => EffectView::Report(text@),
        }
    }
}

/// The values of a sequence of effects, in order.
pub open spec fn effect_views(effects: Seq<Effect>) -> Seq<EffectView> {
    effects.map_values(|e: Effect| e@)
}

/// The messages that answer a refresh: the tasks on success, the error on
/// failure.
pub fn reply_to_list(outcome: Result<Vec<Task>, String>) -> (msgs: Vec<Msg>)
    ensures
        msg_views(msgs@) == match outcome {
            Ok(tasks) => seq![MsgView::TasksLoaded(views(tasks@))],
            Err(error) => seq![MsgView::Error(error@)],
        },
{
    let mut msgs: Vec<Msg> = Vec::new();
    match outcome {
        Ok(tasks) => {
            let ghost list = views(tasks@);
            msgs.push(Msg::TasksLoaded(tasks));
            assert(msg_views(msgs@) =~= seq![MsgView::TasksLoaded(list)]);
        },
        Err(error) => {
            let ghost text = error@;
            msgs.push(Msg::Error(error));
            assert(msg_views(msgs@) =~= seq![MsgView::Error(text)]);
        },
    }
    msgs
}

/// The messages that answer a create call: the created task on success, the
/// error on failure. Nothing was written ahead, so there is nothing to undo.
pub fn reply_to_create(outcome: Result<Task, String>) -> (msgs: Vec<Msg>)
    ensures
        msg_views(msgs@) == match outcome {
            Ok(task) => seq![MsgView::TaskCreated(task@)],
            Err(error) => seq![MsgView::Error(error@)],
        },
{
    let mut msgs: Vec<Msg> = Vec::new();
    match outcome {
        Ok(task) => {
            let ghost t = task@;
            msgs.push(Msg::TaskCreated(task));
            assert(msg_views(msgs@) =~= seq![MsgView::TaskCreated(t)]);
        },
        Err(error) => {
            let ghost text = error@;
            msgs.push(Msg::Error(error));
            assert(msg_views(msgs@) =~= seq![MsgView::Error(text)]);
        },
    }
    msgs
}

/// The messages that answer the completion update of task `id`: the
/// authoritative task on success; on failure the rollback to `prior`, the
/// flag before the optimistic write, followed by the error.
pub fn reply_to_toggle(id: u128, prior: bool, outcome: Result<Task, String>) -> (msgs: Vec<Msg>)
    ensures
        msg_views(msgs@) == match outcome {
            Ok(task) => seq![MsgView::TaskUpdated(task@)],
            Err(error) => seq![MsgView::RevertTaskToggle(id, prior), MsgView::Error(error@)],
        },
{
    let mut msgs: Vec<Msg> = Vec::new();
    match outcome {
        Ok(task) => {
            let ghost t = task@;
            msgs.push(Msg::TaskUpdated(task));
            assert(msg_views(msgs@) =~= seq![MsgView::TaskUpdated(t)]);
        },
        Err(error) => {
            let ghost text = error@;
            msgs.push(Msg::RevertTaskToggle(id, prior));
            msgs.push(Msg::Error(error));
            assert(msg_views(msgs@) =~= seq![
                MsgView::RevertTaskToggle(id, prior),
                MsgView::Error(text),
            ]);
        },
    }
    msgs
}

/// The messages that answer the save of task `id`: the authoritative task on
/// success; on failure the end of the wait for `id`, followed by the error.
pub fn reply_to_save(id: u128, outcome: Result<Task, String>) -> (msgs: Vec<Msg>)
    ensures
        msg_views(msgs@) == match outcome {
            Ok(task) => seq![MsgView::TaskSaved(task@)],
            Err(error) => seq![MsgView::SetTaskLoading(id, false), MsgView::Error(error@)],
        },
{
    let mut msgs: Vec<Msg> = Vec::new();
    match outcome {
        Ok(task) => {
            let ghost t = task@;
            msgs.push(Msg::TaskSaved(task));
            assert(msg_views(msgs@) =~= seq![MsgView::TaskSaved(t)]);
        },
        Err(error) => {
            let ghost text = error@;
            msgs.push(Msg::SetTaskLoading(id, false));
            msgs.push(Msg::Error(error));
            assert(msg_views(msgs@) =~= seq![
                MsgView::SetTaskLoading(id, false),
                MsgView::Error(text),
            ]);
        },
    }
    msgs
}

/// The messages that answer the deletion of task `id`: the confirmation on
/// success; on failure the end of the wait for `id`, followed by the error.
/// The task stays out of the store either way.
pub fn reply_to_delete(id: u128, outcome: Result<(), String>) -> (msgs: Vec<Msg>)
    ensures
        msg_views(msgs@) == match outcome {
            Ok(_) => seq![MsgView::TaskDeleted(id)],
            Err(error) => seq![MsgView::SetTaskLoading(id, false), MsgView::Error(error@)],
        },
{
    let mut msgs: Vec<Msg> = Vec::new();
    match outcome {
        Ok(_) => {
            msgs.push(Msg::TaskDeleted(id));
            assert(msg_views(msgs@) =~= seq![MsgView::TaskDeleted(id)]);
        },
        Err(error) => {
            let ghost text = error@;
            msgs.push(Msg::SetTaskLoading(id, false));
            msgs.push(Msg::Error(error));
            assert(msg_views(msgs@) =~= seq![
                MsgView::SetTaskLoading(id, false),
                MsgView::Error(text),
            ]);
        },
    }
    msgs
}

} // verus!
