//! The state machine: the dispatcher of user intents and the reconciler of
//! remote outcomes.
//!
//! [`Model`] owns the entity store, the in-flight registry, the edit buffer
//! and the form fields. [`Model::update`] takes one message, changes the
//! model and returns the effects that the surrounding program must carry
//! out. A user intent is applied to the local replica at once; the outcome of
//! the remote call arrives later as another message and is reconciled then.
//!
//! [`ModelView`] is the mathematical value of a model, and its functions say
//! what each message does to it.

use vstd::prelude::*;

use crate::message::{effect_views, Effect, EffectView, Msg, MsgView};
use crate::page::{page_at, path_of, Page};
use crate::registry::InFlight;
use crate::store::{
    completed_ids, contains_id, distinct_ids, is_pending, loaded, lookup, views, with_completion,
    with_task, without_id, Store,
};
use crate::task::{CreateTaskRequest, CreateTaskRequestView, Task, TaskView, UpdateTaskRequest,
    UpdateTaskRequestView};
use crate::text::{is_blank, trimmed};

verus! {

/// The mathematical value of a [`Model`].
pub struct ModelView {
    /// The page on show.
    pub current_page: Page,
    /// The entity store.
    pub tasks: Seq<TaskView>,
    /// The title field of the create form.
    pub new_task_title: Seq<char>,
    /// The description field of the create form.
    pub new_task_description: Seq<char>,
    /// The task whose edit buffer is open, if any.
    pub editing_task: Option<u128>,
    /// The draft title of the edit buffer.
    pub edit_title: Seq<char>,
    /// The draft description of the edit buffer.
    pub edit_description: Seq<char>,
    /// Whether a refresh of the whole list is awaited.
    pub loading: bool,
    /// Whether the completed tasks are on show.
    pub show_completed: bool,
    /// The in-flight registry.
    pub in_flight: Set<u128>,
}

/// The request effects that delete the tasks `ids`, one for each, in order.
pub open spec fn deletions(ids: Seq<u128>) -> Seq<EffectView> {
    ids.map_values(|id: u128| EffectView::DeleteTask(id))
}

impl ModelView {
    /// The model at start-up: the dashboard, no task, nothing outstanding,
    /// empty forms, the completed tasks on show.
    pub open spec fn initial() -> ModelView {
        ModelView {
            current_page: Page::Dashboard,
            tasks: Seq::empty(),
            new_task_title: Seq::empty(),
            new_task_description: Seq::empty(),
            editing_task: None,
            edit_title: Seq::empty(),
            edit_description: Seq::empty(),
            loading: false,
            show_completed: true,
            in_flight: Set::empty(),
        }
    }

    /// The task page is on show and the store is empty.
    pub open spec fn needs_tasks(self) -> bool {
        self.current_page == Page::Tasks && self.tasks.len() == 0
    }

    /// After start-up under the browser path `path`, where one is known.
    pub open spec fn started(self, path: Option<Seq<char>>) -> ModelView {
        match path {
            Some(p) => ModelView { current_page: page_at(p), ..self },
            None => self,
        }
    }

    /// After `NavigateTo(page)`.
    pub open spec fn navigated(self, page: Page) -> ModelView {
        ModelView { current_page: page, ..self }
    }

    /// The effects of `NavigateTo(page)`: the new address, and a refresh
    /// where the task page opens on an empty store.
    pub open spec fn navigate_effects(self, page: Page) -> Seq<EffectView> {
        if self.navigated(page).needs_tasks() {
            seq![EffectView::PushUrl(path_of(page)), EffectView::Reload]
        } else {
            seq![EffectView::PushUrl(path_of(page))]
        }
    }

    /// After `RouteChanged(path)`.
    pub open spec fn rerouted(self, path: Seq<char>) -> ModelView {
        ModelView { current_page: page_at(path), ..self }
    }

    /// The effects of `RouteChanged(path)`: a refresh where the page changes
    /// to the task page on an empty store.
    pub open spec fn reroute_effects(self, path: Seq<char>) -> Seq<EffectView> {
        if page_at(path) != self.current_page && self.rerouted(path).needs_tasks() {
            seq![EffectView::Reload]
        } else {
            Seq::empty()
        }
    }

    /// After `LoadTasks`.
    pub open spec fn refreshing(self) -> ModelView {
        ModelView { loading: true, ..self }
    }

    /// After `TasksLoaded(list)`.
    pub open spec fn refreshed(self, list: Seq<TaskView>) -> ModelView {
        ModelView { tasks: loaded(list), loading: false, ..self }
    }

    /// Whether the create form may be submitted: its title, trimmed, is not
    /// empty.
    pub open spec fn can_create(self) -> bool {
        trimmed(self.new_task_title).len() != 0
    }

    /// After the create form is submitted with a title that is blank or not:
    /// the form is emptied, unless the title is blank.
    pub open spec fn submitted_when(self, blank: bool) -> ModelView {
        if blank {
            self
        } else {
            ModelView { new_task_title: Seq::empty(), new_task_description: Seq::empty(), ..self }
        }
    }

    /// The effects of submitting the create form with a title that is blank
    /// or not: one create call with the form's content, or nothing where the
    /// title is blank.
    pub open spec fn submit_effects_when(self, blank: bool) -> Seq<EffectView> {
        if blank {
            Seq::empty()
        } else {
            seq![
                EffectView::CreateTask(
                    CreateTaskRequestView {
                        title: self.new_task_title,
                        description: self.new_task_description,
                    },
                ),
            ]
        }
    }

    /// After `CreateTask`: the form is emptied, unless its title, trimmed, is
    /// empty.
    pub open spec fn submitted(self) -> ModelView {
        self.submitted_when(!self.can_create())
    }

    /// The effects of `CreateTask`: one create call with the form's content,
    /// or nothing where the title, trimmed, is empty.
    pub open spec fn submit_effects(self) -> Seq<EffectView> {
        self.submit_effects_when(!self.can_create())
    }

    /// After `TaskCreated(task)`.
    pub open spec fn created(self, task: TaskView) -> ModelView {
        ModelView { tasks: with_task(self.tasks, task), ..self }
    }

    /// After `ToggleTask(id)`: the flag is flipped at once and `id` is in
    /// flight; nothing changes where the store has no such task.
    pub open spec fn toggled(self, id: u128) -> ModelView {
        match lookup(self.tasks, id) {
            Some(task) => ModelView {
                tasks: with_completion(self.tasks, id, !task.completed),
                in_flight: self.in_flight.insert(id),
                ..self
            },
            None => self,
        }
    }

    /// The effects of `ToggleTask(id)`: one update call that carries the new
    /// flag and nothing else, together with the flag before the flip.
    pub open spec fn toggle_effects(self, id: u128) -> Seq<EffectView> {
        match lookup(self.tasks, id) {
            Some(task) => seq![
                EffectView::ToggleTask {
                    id,
                    request: UpdateTaskRequestView {
                        title: None,
                        description: None,
                        completed: Some(!task.completed),
                    },
                    prior: task.completed,
                },
            ],
            None => Seq::empty(),
        }
    }

    /// After `TaskUpdated(task)`: `task.id` is no longer in flight; the
    /// stored task is replaced by `task` where their completion flags
    /// differ, and left alone where they agree or where there is none.
    pub open spec fn updated(self, task: TaskView) -> ModelView {
        ModelView {
            tasks: match lookup(self.tasks, task.id) {
                Some(current) => if current.completed != task.completed {
                    with_task(self.tasks, task)
                } else {
                    self.tasks
                },
                None => self.tasks,
            },
            in_flight: self.in_flight.remove(task.id),
            ..self
        }
    }

    /// After `RevertTaskToggle(id, prior)`: the flag is `prior` again and
    /// `id` is no longer in flight.
    pub open spec fn reverted(self, id: u128, prior: bool) -> ModelView {
        ModelView {
            tasks: with_completion(self.tasks, id, prior),
            in_flight: self.in_flight.remove(id),
            ..self
        }
    }

    /// After `DeleteTask(id)`: once confirmed, the task leaves the store at
    /// once and `id` is in flight.
    pub open spec fn deleting(self, id: u128, confirmed: bool) -> ModelView {
        if confirmed {
            ModelView {
                tasks: without_id(self.tasks, id),
                in_flight: self.in_flight.insert(id),
                ..self
            }
        } else {
            self
        }
    }

    /// The effects of `DeleteTask(id)`: one delete call, once confirmed.
    pub open spec fn delete_effects(self, id: u128, confirmed: bool) -> Seq<EffectView> {
        if confirmed {
            seq![EffectView::DeleteTask(id)]
        } else {
            Seq::empty()
        }
    }

    /// After `TaskDeleted(id)`: `id` is no longer in flight, and the store
    /// holds no task under it.
    pub open spec fn deleted(self, id: u128) -> ModelView {
        ModelView {
            tasks: without_id(self.tasks, id),
            in_flight: self.in_flight.remove(id),
            ..self
        }
    }

    /// After `EditTask(id)`: the edit buffer opens on the task, with its
    /// title and description as drafts; nothing changes where the store has
    /// no such task.
    pub open spec fn editing(self, id: u128) -> ModelView {
        match lookup(self.tasks, id) {
            Some(task) => ModelView {
                editing_task: Some(id),
                edit_title: task.title,
                edit_description: task.description,
                ..self
            },
            None => self,
        }
    }

    /// After `SaveEdit(id)`: where the edit buffer is open on `id`, it
    /// closes and `id` is in flight; nothing changes otherwise.
    pub open spec fn saving(self, id: u128) -> ModelView {
        if self.editing_task == Some(id) {
            ModelView { editing_task: None, in_flight: self.in_flight.insert(id), ..self }
        } else {
            self
        }
    }

    /// The effects of `SaveEdit(id)`: one update call that carries the two
    /// drafts and no completion flag, where the edit buffer is open on `id`.
    pub open spec fn save_effects(self, id: u128) -> Seq<EffectView> {
        if self.editing_task == Some(id) {
            seq![
                EffectView::SaveTask {
                    id,
                    request: UpdateTaskRequestView {
                        title: Some(self.edit_title),
                        description: Some(self.edit_description),
                        completed: None,
                    },
                },
            ]
        } else {
            Seq::empty()
        }
    }

    /// After `CancelEdit`: the edit buffer is closed and its drafts are
    /// dropped.
    pub open spec fn cancelled(self) -> ModelView {
        ModelView {
            editing_task: None,
            edit_title: Seq::empty(),
            edit_description: Seq::empty(),
            ..self
        }
    }

    /// The open edit buffer: the task under edit with the two drafts.
    pub open spec fn edit_buffer(self) -> Option<(u128, Seq<char>, Seq<char>)> {
        match self.editing_task {
            Some(id) => Some((id, self.edit_title, self.edit_description)),
            None => None,
        }
    }

    /// After `TaskSaved(task)`: `task.id` is no longer in flight, the stored
    /// task is replaced by `task`, and the drafts are emptied.
    pub open spec fn saved(self, task: TaskView) -> ModelView {
        ModelView {
            tasks: if contains_id(self.tasks, task.id) {
                with_task(self.tasks, task)
            } else {
                self.tasks
            },
            in_flight: self.in_flight.remove(task.id),
            edit_title: Seq::empty(),
            edit_description: Seq::empty(),
            ..self
        }
    }

    /// After `ClearCompleted`: once confirmed, every completed task leaves
    /// the store at once and their identifiers are in flight.
    pub open spec fn clearing(self, confirmed: bool) -> ModelView {
        if confirmed {
            ModelView {
                tasks: self.tasks.filter(is_pending()),
                in_flight: self.in_flight.union(completed_ids(self.tasks).to_set()),
                ..self
            }
        } else {
            self
        }
    }

    /// The effects of `ClearCompleted`: one delete call for each completed
    /// task, once confirmed.
    pub open spec fn clear_effects(self, confirmed: bool) -> Seq<EffectView> {
        if confirmed {
            deletions(completed_ids(self.tasks))
        } else {
            Seq::empty()
        }
    }

    /// After `SetTaskLoading(id, loading)`.
    pub open spec fn marked(self, id: u128, loading: bool) -> ModelView {
        ModelView {
            in_flight: if loading {
                self.in_flight.insert(id)
            } else {
                self.in_flight.remove(id)
            },
            ..self
        }
    }

    /// The model after `msg`, with `confirmed` as the user's answer where
    /// `msg` asks for one.
    pub open spec fn next(self, msg: MsgView, confirmed: bool) -> ModelView {
        match msg {
            MsgView::NavigateTo(page) => self.navigated(page),
            MsgView::RouteChanged(path) => self.rerouted(path),
            MsgView::LoadTasks => self.refreshing(),
            MsgView::TasksLoaded(list) => self.refreshed(list),
            MsgView::SetNewTaskTitle(title) => ModelView { new_task_title: title, ..self },
            MsgView::SetNewTaskDescription(description) => ModelView {
                new_task_description: description,
                ..self
            },
            MsgView::CreateTask => self.submitted(),
            MsgView::TaskCreated(task) => self.created(task),
            MsgView::ToggleTask(id) => self.toggled(id),
            MsgView::TaskUpdated(task) => self.updated(task),
            MsgView::RevertTaskToggle(id, prior) => self.reverted(id, prior),
            MsgView::DeleteTask(id) => self.deleting(id, confirmed),
            MsgView::TaskDeleted(id) => self.deleted(id),
            MsgView::EditTask(id) => self.editing(id),
            MsgView::SetEditTitle(title) => ModelView { edit_title: title, ..self },
            MsgView::SetEditDescription(description) => ModelView {
                edit_description: description,
                ..self
            },
            MsgView::SaveEdit(id) => self.saving(id),
            MsgView::TaskSaved(task) => self.saved(task),
            MsgView::CancelEdit => self.cancelled(),
            MsgView::ClearCompleted => self.clearing(confirmed),
            MsgView::ToggleCompletedSection => ModelView {
                show_completed: !self.show_completed,
                ..self
            },
            MsgView::SetTaskLoading(id, loading) => self.marked(id, loading),
            MsgView::Error(_) => self,
        }
    }

    /// The effects of `msg`, with `confirmed` as the user's answer where
    /// `msg` asks for one.
    pub open spec fn effects(self, msg: MsgView, confirmed: bool) -> Seq<EffectView> {
        match msg {
            MsgView::NavigateTo(page) => self.navigate_effects(page),
            MsgView::RouteChanged(path) => self.reroute_effects(path),
            MsgView::LoadTasks => seq![EffectView::FetchTasks],
            MsgView::CreateTask => self.submit_effects(),
            MsgView::ToggleTask(id) => self.toggle_effects(id),
            MsgView::DeleteTask(id) => self.delete_effects(id, confirmed),
            MsgView::SaveEdit(id) => self.save_effects(id),
            MsgView::ClearCompleted => self.clear_effects(confirmed),
            MsgView::Error(text) => seq![EffectView::Report(text)],
            _ => Seq::empty(),
        }
    }
}

/// The state of the application: the local replica with its bookkeeping.
#[derive(Debug)]
pub struct Model {
    current_page: Page,
    store: Store,
    new_task_title: String,
    new_task_description: String,
    editing_task: Option<u128>,
    edit_title: String,
    edit_description: String,
    loading: bool,
    show_completed: bool,
    in_flight: InFlight,
}

impl View for Model {
    type V = ModelView;

    closed spec fn view(&self) -> ModelView {
        ModelView {
            current_page: self.current_page,
            tasks: self.store@,
            new_task_title: self.new_task_title@,
            new_task_description: self.new_task_description@,
            editing_task: self.editing_task,
            edit_title: self.edit_title@,
            edit_description: self.edit_description@,
            loading: self.loading,
            show_completed: self.show_completed,
            in_flight: self.in_flight@,
        }
    }
}

impl Default for Model {
    /// The model at start-up.
    fn default() -> (model: Model)
        ensures
            model@ == ModelView::initial(),
    {
        Model {
            current_page: Page::Dashboard,
            store: Store::new(),
            new_task_title: String::new(),
            new_task_description: String::new(),
            editing_task: None,
            edit_title: String::new(),
            edit_description: String::new(),
            loading: false,
            show_completed: true,
            in_flight: InFlight::new(),
        }
    }
}

impl Model {
    /// Starts the model under the browser path `pathname`, where the browser
    /// gave one, and asks for the first refresh.
    pub fn init(&mut self, pathname: Option<&str>) -> (effects: Vec<Effect>)
        ensures
            final(self)@ == old(self)@.started(
                match pathname {
                    Some(p) => Some(p@),
                    None => None,
                },
            ),
            effect_views(effects@) == seq![EffectView::Reload],
    {
        if let Some(path) = pathname {
            self.current_page = Page::from_path(path);
        }
        let mut effects: Vec<Effect> = Vec::new();
        effects.push(Effect::Reload);
        assert(effect_views(effects@) =~= seq![EffectView::Reload]);
        effects
    }

    /// Whether the task page is on show while the store is empty.
    fn needs_tasks(&self) -> (needed: bool)
        ensures
            needed == self@.needs_tasks(),
    {
        self.current_page == Page::Tasks && self.store.len() == 0
    }

    /// Shows `page` and has its path put into the browser's address; asks
    /// for a refresh where the task page opens on an empty store.
    pub fn navigate_to(&mut self, page: Page) -> (effects: Vec<Effect>)
        ensures
            final(self)@ == old(self)@.navigated(page),
            effect_views(effects@) == old(self)@.navigate_effects(page),
    {
        self.current_page = page;
        let mut effects: Vec<Effect> = Vec::new();
        effects.push(Effect::PushUrl(page.to_path().to_owned()));
        if self.needs_tasks() {
            effects.push(Effect::Reload);
        }
        assert(effect_views(effects@) =~= old(self)@.navigate_effects(page));
        effects
    }

    /// Follows the browser to `path`; asks for a refresh where this changes
    /// the page to the task page on an empty store.
    pub fn route_changed(&mut self, path: &str) -> (effects: Vec<Effect>)
        ensures
            final(self)@ == old(self)@.rerouted(path@),
            effect_views(effects@) == old(self)@.reroute_effects(path@),
    {
        let page = Page::from_path(path);
        let mut effects: Vec<Effect> = Vec::new();
        if page != self.current_page {
            self.current_page = page;
            if self.needs_tasks() {
                effects.push(Effect::Reload);
            }
        }
        assert(effect_views(effects@) =~= old(self)@.reroute_effects(path@));
        effects
    }

    /// Begins a refresh of the whole list.
    pub fn load_tasks(&mut self) -> (effects: Vec<Effect>)
        ensures
            final(self)@ == old(self)@.refreshing(),
            effect_views(effects@) == seq![EffectView::FetchTasks],
    {
        self.loading = true;
        let mut effects: Vec<Effect> = Vec::new();
        effects.push(Effect::FetchTasks);
        assert(effect_views(effects@) =~= seq![EffectView::FetchTasks]);
        effects
    }

    /// Ends a refresh: the store holds `list`, in order.
    pub fn tasks_loaded(&mut self, list: Vec<Task>)
        ensures
            final(self)@ == old(self)@.refreshed(views(list@)),
    {
        self.store.load(list);
        self.loading = false;
    }

    /// Sets the title field of the create form.
    pub fn set_new_task_title(&mut self, title: String)
        ensures
            final(self)@ == (ModelView { new_task_title: title@, ..old(self)@ }),
    {
        self.new_task_title = title;
    }

    /// Sets the description field of the create form.
    pub fn set_new_task_description(&mut self, description: String)
        ensures
            final(self)@ == (ModelView { new_task_description: description@, ..old(self)@ }),
    {
        self.new_task_description = description;
    }

    /// Submits the create form. Where the title, trimmed, is empty, nothing
    /// happens: no change and no remote call. Otherwise the form is emptied
    /// at once and one create call carries what it held. The store is left
    /// alone: the new task enters it when the remote store has named it.
    pub fn create(&mut self) -> (effects: Vec<Effect>)
        ensures
            final(self)@ == old(self)@.submitted(),
            effect_views(effects@) == old(self)@.submit_effects(),
            old(self)@.new_task_title.len() == 0 ==> final(self)@ == old(self)@ && effects@.len()
                == 0,
    {
        let blank = is_blank(self.new_task_title.as_str());
        let effects = self.create_when(blank);
        assert(effect_views(effects@).len() == effects@.len());
        effects
    }

    /// Submits the create form, given whether its title is blank. A blank
    /// title is rejected: no change and no remote call. Otherwise the form is
    /// emptied at once and one create call carries what it held.
    pub fn create_when(&mut self, blank: bool) -> (effects: Vec<Effect>)
        ensures
            final(self)@ == old(self)@.submitted_when(blank),
            effect_views(effects@) == old(self)@.submit_effects_when(blank),
    {
        let mut effects: Vec<Effect> = Vec::new();
        if !blank {
            let mut title = String::new();
            let mut description = String::new();
            std::mem::swap(&mut title, &mut self.new_task_title);
            std::mem::swap(&mut description, &mut self.new_task_description);
            effects.push(Effect::CreateTask(CreateTaskRequest { title, description }));
        }
        assert(effect_views(effects@) =~= old(self)@.submit_effects_when(blank));
        effects
    }

    /// Takes the task that the remote store created into the store.
    pub fn task_created(&mut self, task: Task)
        ensures
            final(self)@ == old(self)@.created(task@),
    {
        self.store.put(task);
    }

    /// Flips the completion of task `id`: the new flag is written to the
    /// store before the remote call is made, `id` is in flight, and the
    /// update call carries the new flag only. The effect keeps the flag
    /// from before the flip, for the rollback. Nothing happens where the
    /// store has no such task.
    pub fn toggle_completion(&mut self, id: u128) -> (effects: Vec<Effect>)
        ensures
            final(self)@ == old(self)@.toggled(id),
            effect_views(effects@) == old(self)@.toggle_effects(id),
    {
        let mut effects: Vec<Effect> = Vec::new();
        let prior = match self.store.get(id) {
            Some(task) => task.completed,
            None => {
                assert(effect_views(effects@) =~= old(self)@.toggle_effects(id));
                return effects;
            },
        };
        self.in_flight.mark(id);
        self.store.set_completed(id, !prior);
        effects.push(
            Effect::ToggleTask { id, request: UpdateTaskRequest::completion(!prior), prior },
        );
        assert(effect_views(effects@) =~= old(self)@.toggle_effects(id));
        effects
    }

    /// Reconciles the success of a completion update. `task.id` is no longer
    /// in flight. The stored task is replaced by `task` only where their
    /// completion flags differ: a response whose flag agrees with the store
    /// is stale or redundant, and is kept from overwriting what the store
    /// holds.
    pub fn task_updated(&mut self, task: Task)
        ensures
            final(self)@ == old(self)@.updated(task@),
    {
        self.in_flight.clear(task.id);
        let differs = match self.store.get(task.id) {
            Some(current) => current.completed != task.completed,
            None => false,
        };
        if differs {
            self.store.put(task);
        }
    }

    /// Reconciles the failure of a completion update: the flag of task `id`
    /// is `prior` again, and `id` is no longer in flight.
    pub fn revert_toggle(&mut self, id: u128, prior: bool)
        ensures
            final(self)@ == old(self)@.reverted(id, prior),
    {
        self.in_flight.clear(id);
        self.store.set_completed(id, prior);
    }

    /// Deletes task `id`, once the user has confirmed: the task leaves the
    /// store before the remote call is made, and `id` is in flight. Nothing
    /// happens without the confirmation.
    pub fn delete_one(&mut self, id: u128, confirmed: bool) -> (effects: Vec<Effect>)
        ensures
            final(self)@ == old(self)@.deleting(id, confirmed),
            effect_views(effects@) == old(self)@.delete_effects(id, confirmed),
    {
        let mut effects: Vec<Effect> = Vec::new();
        if confirmed {
            self.in_flight.mark(id);
            self.store.remove(id);
            effects.push(Effect::DeleteTask(id));
        }
        assert(effect_views(effects@) =~= old(self)@.delete_effects(id, confirmed));
        effects
    }

    /// Reconciles the success of a deletion: `id` is no longer in flight,
    /// and no task stands under it.
    pub fn task_deleted(&mut self, id: u128)
        ensures
            final(self)@ == old(self)@.deleted(id),
    {
        self.store.remove(id);
        self.in_flight.clear(id);
    }

    /// Opens the edit buffer on task `id`, with the task's title and
    /// description as drafts; a buffer that was open is dropped. Nothing
    /// happens where the store has no such task.
    pub fn begin_edit(&mut self, id: u128)
        ensures
            final(self)@ == old(self)@.editing(id),
    {
        match self.store.get(id) {
            Some(task) => {
                let title = task.title.clone();
                let description = task.description.clone();
                self.editing_task = Some(id);
                self.edit_title = title;
                self.edit_description = description;
            },
            None => {},
        }
    }

    /// Sets the draft title.
    pub fn set_edit_title(&mut self, title: String)
        ensures
            final(self)@ == (ModelView { edit_title: title@, ..old(self)@ }),
    {
        self.edit_title = title;
    }

    /// Sets the draft description.
    pub fn set_edit_description(&mut self, description: String)
        ensures
            final(self)@ == (ModelView { edit_description: description@, ..old(self)@ }),
    {
        self.edit_description = description;
    }

    /// Whether the edit buffer is open on task `id`.
    pub fn is_editing(&self, id: u128) -> (open: bool)
        ensures
            open == (self@.editing_task == Some(id)),
    {
        match self.editing_task {
            Some(current) => current == id,
            None => false,
        }
    }

    /// Saves the drafts to task `id`. The intent is ignored unless the edit
    /// buffer is open on `id`. Otherwise the buffer closes at once, `id` is
    /// in flight, and one update call carries the two drafts.
    pub fn save_edit(&mut self, id: u128) -> (effects: Vec<Effect>)
        ensures
            final(self)@ == old(self)@.saving(id),
            effect_views(effects@) == old(self)@.save_effects(id),
    {
        let mut effects: Vec<Effect> = Vec::new();
        if self.is_editing(id) {
            let title = self.edit_title.clone();
            let description = self.edit_description.clone();
            self.in_flight.mark(id);
            self.editing_task = None;
            effects.push(Effect::SaveTask { id, request: UpdateTaskRequest::edit(title, description) });
        }
        assert(effect_views(effects@) =~= old(self)@.save_effects(id));
        effects
    }

    /// Reconciles the success of a save: `task.id` is no longer in flight,
    /// the stored task is replaced by `task`, and the drafts are emptied.
    pub fn task_saved(&mut self, task: Task)
        ensures
            final(self)@ == old(self)@.saved(task@),
    {
        self.in_flight.clear(task.id);
        if self.store.contains(task.id) {
            self.store.put(task);
        }
        self.edit_title = String::new();
        self.edit_description = String::new();
    }

    /// Closes the edit buffer and drops its drafts.
    pub fn cancel_edit(&mut self)
        ensures
            final(self)@ == old(self)@.cancelled(),
    {
        self.editing_task = None;
        self.edit_title = String::new();
        self.edit_description = String::new();
    }

    /// Deletes every completed task, once the user has confirmed: the tasks
    /// leave the store before any remote call is made, their identifiers are
    /// in flight, and one delete call is issued for each. Nothing happens
    /// without the confirmation.
    pub fn delete_completed(&mut self, confirmed: bool) -> (effects: Vec<Effect>)
        ensures
            final(self)@ == old(self)@.clearing(confirmed),
            effect_views(effects@) == old(self)@.clear_effects(confirmed),
    {
        let mut effects: Vec<Effect> = Vec::new();
        if confirmed {
            let ids = self.store.remove_completed();
            self.in_flight.mark_all(&ids);
            let mut i: usize = 0;
            assert(effect_views(effects@) =~= deletions(ids@.take(0)));
            while i < ids.len()
                invariant
                    i <= ids.len(),
                    effects@.len() == i,
                    effect_views(effects@) == deletions(ids@.take(i as int)),
                decreases ids.len() - i,
            {
                let ghost issued = effects@;
                effects.push(Effect::DeleteTask(ids[i]));
                proof {
                    let done = ids@.take(i as int);
                    let more = ids@.take(i + 1);
                    assert forall|j: int| 0 <= j < i + 1 implies effect_views(effects@)[j]
                        == deletions(more)[j] by {
                        if j < i {
                            assert(effect_views(issued)[j] == deletions(done)[j]);
                            assert(done[j] == more[j]);
                        }
                    }
                    assert(effect_views(effects@) =~= deletions(more));
                }
                i += 1;
            }
            assert(ids@.take(ids.len() as int) =~= ids@);
        } else {
            assert(effect_views(effects@) =~= old(self)@.clear_effects(confirmed));
        }
        effects
    }

    /// Shows the completed tasks, or hides them.
    pub fn toggle_completed_section(&mut self)
        ensures
            final(self)@ == (ModelView {
                show_completed: !old(self)@.show_completed,
                ..old(self)@
            }),
    {
        self.show_completed = !self.show_completed;
    }

    /// Marks `id` as in flight, or as no longer in flight.
    pub fn set_task_loading(&mut self, id: u128, loading: bool)
        ensures
            final(self)@ == old(self)@.marked(id, loading),
    {
        if loading {
            self.in_flight.mark(id);
        } else {
            self.in_flight.clear(id);
        }
    }

    /// The page on show.
    pub fn current_page(&self) -> (page: Page)
        ensures
            page == self@.current_page,
    {
        self.current_page
    }

    /// The tasks of the store, in order. No identifier occurs twice.
    pub fn tasks(&self) -> (tasks: &Vec<Task>)
        ensures
            views(tasks@) == self@.tasks,
            distinct_ids(self@.tasks),
    {
        self.store.list()
    }

    /// The task stored under `id`, or `None` when the store holds none.
    pub fn task(&self, id: u128) -> (task: Option<&Task>)
        ensures
            match task {
                Some(t) => lookup(self@.tasks, id) == Some(t@),
                None => lookup(self@.tasks, id).is_none(),
            },
    {
        self.store.get(id)
    }

    /// Whether a mutation for `id` is outstanding.
    pub fn is_in_flight(&self, id: u128) -> (outstanding: bool)
        ensures
            outstanding == self@.in_flight.contains(id),
    {
        self.in_flight.is_in_flight(id)
    }

    /// The task whose edit buffer is open, if any.
    pub fn editing_task(&self) -> (id: Option<u128>)
        ensures
            id == self@.editing_task,
    {
        self.editing_task
    }

    /// The open edit buffer: the task under edit with its draft title and
    /// draft description, or `None` while no buffer is open.
    pub fn edit_buffer(&self) -> (buffer: Option<(u128, &str, &str)>)
        ensures
            match buffer {
                Some((id, title, description)) => self@.edit_buffer() == Some(
                    (id, title@, description@),
                ),
                None => self@.edit_buffer().is_none(),
            },
    {
        match self.editing_task {
            Some(id) => Some((id, self.edit_title.as_str(), self.edit_description.as_str())),
            None => None,
        }
    }

    /// The draft title of the edit buffer.
    pub fn edit_title(&self) -> (text: &str)
        ensures
            text@ == self@.edit_title,
    {
        self.edit_title.as_str()
    }

    /// The draft description of the edit buffer.
    pub fn edit_description(&self) -> (text: &str)
        ensures
            text@ == self@.edit_description,
    {
        self.edit_description.as_str()
    }

    /// The title field of the create form.
    pub fn new_task_title(&self) -> (text: &str)
        ensures
            text@ == self@.new_task_title,
    {
        self.new_task_title.as_str()
    }

    /// The description field of the create form.
    pub fn new_task_description(&self) -> (text: &str)
        ensures
            text@ == self@.new_task_description,
    {
        self.new_task_description.as_str()
    }

    /// Whether a refresh of the whole list is awaited.
    pub fn loading(&self) -> (awaited: bool)
        ensures
            awaited == self@.loading,
    {
        self.loading
    }

    /// Whether the completed tasks are on show.
    pub fn show_completed(&self) -> (shown: bool)
        ensures
            shown == self@.show_completed,
    {
        self.show_completed
    }

    /// Takes one message: changes the model as the message asks and returns
    /// the effects to carry out, in order. `confirmed` is the user's answer
    /// to the question of `Msg::confirmation_prompt`; it is read for the two
    /// destructive intents only.
    pub fn update(&mut self, msg: Msg, confirmed: bool) -> (effects: Vec<Effect>)
        ensures
            final(self)@ == old(self)@.next(msg@, confirmed),
            effect_views(effects@) == old(self)@.effects(msg@, confirmed),
    {
        match msg {
            Msg::NavigateTo(page) => self.navigate_to(page),
            Msg::RouteChanged(path) => self.route_changed(path.as_str()),
            Msg::LoadTasks => self.load_tasks(),
            Msg::TasksLoaded(list) => {
                self.tasks_loaded(list);
                no_effect()
            },
            Msg::SetNewTaskTitle(title) => {
                self.set_new_task_title(title);
                no_effect()
            },
            Msg::SetNewTaskDescription(description) => {
                self.set_new_task_description(description);
                no_effect()
            },
            Msg::CreateTask => self.create(),
            Msg::TaskCreated(task) => {
                self.task_created(task);
                no_effect()
            },
            Msg::ToggleTask(id) => self.toggle_completion(id),
            Msg::TaskUpdated(task) => {
                self.task_updated(task);
                no_effect()
            },
            Msg::RevertTaskToggle(id, prior) => {
                self.revert_toggle(id, prior);
                no_effect()
            },
            Msg::DeleteTask(id) => self.delete_one(id, confirmed),
            Msg::TaskDeleted(id) => {
                self.task_deleted(id);
                no_effect()
            },
            Msg::EditTask(id) => {
                self.begin_edit(id);
                no_effect()
            },
            Msg::SetEditTitle(title) => {
                self.set_edit_title(title);
                no_effect()
            },
            Msg::SetEditDescription(description) => {
                self.set_edit_description(description);
                no_effect()
            },
            Msg::SaveEdit(id) => self.save_edit(id),
            Msg::TaskSaved(task) => {
                self.task_saved(task);
                no_effect()
            },
            Msg::CancelEdit => {
                self.cancel_edit();
                no_effect()
            },
            Msg::ClearCompleted => self.delete_completed(confirmed),
            Msg::ToggleCompletedSection => {
                self.toggle_completed_section();
                no_effect()
            },
            Msg::SetTaskLoading(id, loading) => {
                self.set_task_loading(id, loading);
                no_effect()
            },
            Msg::Error(text) => report(text),
        }
    }
}

/// No effect at all.
fn no_effect() -> (effects: Vec<Effect>)
    ensures
        effect_views(effects@) == Seq::<EffectView>::empty(),
{
    let effects: Vec<Effect> = Vec::new();
    assert(effect_views(effects@) =~= Seq::<EffectView>::empty());
    effects
}

/// The one effect that shows the error `text`.
fn report(text: String) -> (effects: Vec<Effect>)
    ensures
        effect_views(effects@) == seq![EffectView::Report(text@)],
{
    let ghost shown = text@;
    let mut effects: Vec<Effect> = Vec::new();
    effects.push(Effect::Report(text));
    assert(effect_views(effects@) =~= seq![EffectView::Report(shown)]);
    effects
}

} // verus!
