//! What holds of the state machine, proved over its mathematical model.

use vstd::prelude::*;

use crate::message::{EffectView, MsgView};
use crate::model::{deletions, ModelView};
use crate::store::{
    completed_ids, contains_id, distinct_ids, is_done, is_pending, lemma_completion_set_back,
    lemma_filter_keeps_distinct, lemma_loaded_is_distinct, lemma_lookup_after_completion,
    lemma_lookup_after_put, lemma_lookup_after_remove, lemma_position_is_first,
    lemma_with_task_keeps_distinct, lookup, position,
};
use crate::task::{CreateTaskRequestView, TaskView};

verus! {

/// Rollback fidelity. A completion update that fails puts the flag back to
/// the value that the flip found, whatever happened to the model in between:
/// the effect of the flip carries that value, and the rollback writes it.
/// Every other field of the task, and every other task, is left as it is.
pub proof fn lemma_rollback_restores_flag(
    before: ModelView,
    between: ModelView,
    id: u128,
    other: u128,
)
    requires
        contains_id(before.tasks, id),
    ensures
        ({
            let found = lookup(before.tasks, id).unwrap();
            let after = between.reverted(id, found.completed);
            &&& before.toggle_effects(id).len() == 1
            &&& before.toggle_effects(id)[0] matches EffectView::ToggleTask { prior, .. }
            &&& prior == found.completed
            &&& lookup(after.tasks, id) == match lookup(between.tasks, id) {
                Some(t) => Some(TaskView { completed: found.completed, ..t }),
                None => None,
            }
            &&& other != id ==> lookup(after.tasks, other) == lookup(between.tasks, other)
            &&& !after.in_flight.contains(id)
        }),
{
    let found = lookup(before.tasks, id).unwrap();
    lemma_lookup_after_completion(between.tasks, id, found.completed, other);
}

/// Rollback fidelity, without anything in between: a flip of the completion
/// flag followed by the failure of its remote call leaves the store exactly
/// as the flip found it.
pub proof fn lemma_failed_toggle_restores_store(m: ModelView, id: u128)
    requires
        contains_id(m.tasks, id),
    ensures
        ({
            let prior = lookup(m.tasks, id).unwrap().completed;
            let after = m.next(MsgView::ToggleTask(id), false).next(
                MsgView::RevertTaskToggle(id, prior),
                false,
            );
            &&& after.tasks == m.tasks
            &&& after == ModelView { in_flight: m.in_flight.remove(id), ..m }
            &&& m.next(MsgView::ToggleTask(id), false).in_flight.contains(id)
        }),
{
    let prior = lookup(m.tasks, id).unwrap().completed;
    lemma_completion_set_back(m.tasks, id, !prior);
    assert(m.in_flight.insert(id).remove(id) =~= m.in_flight.remove(id));
}

/// Stale-response suppression. A successful completion update whose flag
/// agrees with the flag that the store holds for the task does not touch the
/// store: whatever else the response carries, what the store holds stays.
/// Only a response whose flag differs replaces the stored task.
pub proof fn lemma_agreeing_response_is_suppressed(m: ModelView, response: TaskView)
    requires
        contains_id(m.tasks, response.id),
    ensures
        ({
            let held = lookup(m.tasks, response.id).unwrap();
            let after = m.next(MsgView::TaskUpdated(response), false);
            &&& held.completed == response.completed ==> after.tasks == m.tasks
            &&& held.completed != response.completed ==> lookup(after.tasks, response.id) == Some(
                response,
            )
            &&& !after.in_flight.contains(response.id)
        }),
{
    lemma_lookup_after_put(m.tasks, response, response.id);
}

/// Submitting the create form never touches the store or the registry: a
/// blank title causes no remote call and no change at all, any other title
/// causes exactly one create call, which carries the form's content.
pub proof fn lemma_create_leaves_store(m: ModelView)
    ensures
        ({
            let after = m.next(MsgView::CreateTask, false);
            let calls = m.effects(MsgView::CreateTask, false);
            &&& after.tasks == m.tasks
            &&& after.in_flight == m.in_flight
            &&& !m.can_create() ==> after == m && calls.len() == 0
            &&& m.can_create() ==> calls.len() == 1 && calls[0] == EffectView::CreateTask(
                CreateTaskRequestView {
                    title: m.new_task_title,
                    description: m.new_task_description,
                },
            )
        }),
{
}

/// A created task that the store did not know becomes exactly one new entry,
/// the last, and is found under its identifier.
pub proof fn lemma_created_task_is_one_new_entry(m: ModelView, task: TaskView)
    requires
        !contains_id(m.tasks, task.id),
    ensures
        ({
            let after = m.next(MsgView::TaskCreated(task), false);
            &&& after.tasks == m.tasks.push(task)
            &&& after.tasks.len() == m.tasks.len() + 1
            &&& lookup(after.tasks, task.id) == Some(task)
        }),
{
    lemma_lookup_after_put(m.tasks, task, task.id);
}

/// The edit guard. Once the edit buffer has opened on task `b`, a save for
/// another task `a` changes nothing and causes no remote call.
pub proof fn lemma_save_for_another_task_is_ignored(m: ModelView, a: u128, b: u128)
    requires
        contains_id(m.tasks, b),
        a != b,
    ensures
        ({
            let open = m.next(MsgView::EditTask(b), false);
            &&& open.editing_task == Some(b)
            &&& open.next(MsgView::SaveEdit(a), false) == open
            &&& open.effects(MsgView::SaveEdit(a), false) == Seq::<EffectView>::empty()
        }),
{
}

/// Without the buffer open on it, a task cannot be saved: the intent changes
/// nothing and causes no remote call.
pub proof fn lemma_save_needs_open_buffer(m: ModelView, id: u128)
    requires
        m.editing_task != Some(id),
    ensures
        m.next(MsgView::SaveEdit(id), false) == m,
        m.effects(MsgView::SaveEdit(id), false) == Seq::<EffectView>::empty(),
{
}

/// Optimistic deletion. A confirmed delete takes the task out of the store
/// at once and puts its identifier in flight. The outcome, success or
/// failure, ends the flight and leaves the store as the delete left it: the
/// task stays out either way.
pub proof fn lemma_delete_is_optimistic(m: ModelView, id: u128, other: u128)
    requires
        distinct_ids(m.tasks),
    ensures
        ({
            let gone = m.next(MsgView::DeleteTask(id), true);
            let confirmed = gone.next(MsgView::TaskDeleted(id), false);
            let failed = gone.next(MsgView::SetTaskLoading(id, false), false);
            &&& !contains_id(gone.tasks, id)
            &&& gone.in_flight.contains(id)
            &&& other != id ==> lookup(gone.tasks, other) == lookup(m.tasks, other)
            &&& confirmed.tasks == gone.tasks
            &&& !confirmed.in_flight.contains(id)
            &&& failed.tasks == gone.tasks
            &&& !failed.in_flight.contains(id)
            &&& m.next(MsgView::DeleteTask(id), false) == m
        }),
{
    lemma_lookup_after_remove(m.tasks, id, other);
}

/// Clearing the completed tasks, once confirmed, removes exactly these from
/// the store: every task that stays is pending, every pending task stays,
/// every completed task is in flight, and there is one delete call for each.
pub proof fn lemma_clear_removes_exactly_the_completed(m: ModelView, id: u128)
    requires
        distinct_ids(m.tasks),
    ensures
        ({
            let after = m.next(MsgView::ClearCompleted, true);
            let calls = m.effects(MsgView::ClearCompleted, true);
            &&& forall|i: int| 0 <= i < after.tasks.len() ==> !(#[trigger] after.tasks[i]).completed
            &&& match lookup(m.tasks, id) {
                Some(t) => if t.completed {
                    &&& !contains_id(after.tasks, id)
                    &&& after.in_flight.contains(id)
                    &&& exists|i: int|
                        0 <= i < calls.len() && #[trigger] calls[i] == EffectView::DeleteTask(id)
                } else {
                    &&& lookup(after.tasks, id) == Some(t)
                    &&& after.in_flight.contains(id) == m.in_flight.contains(id)
                },
                None => !contains_id(after.tasks, id),
            }
            &&& calls.len() == m.tasks.len() - after.tasks.len()
        }),
{
    let s = m.tasks;
    let kept = s.filter(is_pending());
    let gone = s.filter(is_done());
    let ids = completed_ids(s);
    lemma_partition(s);
    lemma_filter_keeps_distinct(s, is_pending());
    lemma_filter_keeps_distinct(s, is_done());
    assert forall|i: int| 0 <= i < kept.len() implies !(#[trigger] kept[i]).completed by {
        lemma_kept_comes_from(s, is_pending(), i);
    }
    assert(ids.len() == gone.len());
    if contains_id(s, id) {
        lemma_position_is_first(s, id);
        let k = position(s, id);
        let t = s[k];
        if t.completed {
            assert(gone.contains(t)) by {
                s.lemma_filter_contains(is_done(), k);
            }
            let g = choose|g: int| 0 <= g < gone.len() && gone[g] == t;
            assert(ids[g] == id);
            assert(ids.to_set().contains(id));
            assert(deletions(ids)[g] == EffectView::DeleteTask(id));
            if contains_id(kept, id) {
                let j = choose|j: int| 0 <= j < kept.len() && #[trigger] kept[j].id == id;
                lemma_kept_comes_from(s, is_pending(), j);
                let r = choose|r: int| 0 <= r < s.len() && s[r] == kept[j];
                assert(s[r].id == s[k].id);
            }
        } else {
            assert(kept.contains(t)) by {
                s.lemma_filter_contains(is_pending(), k);
            }
            let g = choose|g: int| 0 <= g < kept.len() && kept[g] == t;
            assert(kept[g].id == id);
            lemma_position_is_first(kept, id);
            let p = position(kept, id);
            if p != g {
                assert(kept[p].id == kept[g].id);
            }
            if ids.to_set().contains(id) {
                let j = choose|j: int| 0 <= j < ids.len() && ids[j] == id;
                assert(gone[j].id == id);
                lemma_kept_comes_from(s, is_done(), j);
                let r = choose|r: int| 0 <= r < s.len() && s[r] == gone[j];
                assert(s[r].id == s[k].id);
            }
        }
    } else if contains_id(kept, id) {
        let j = choose|j: int| 0 <= j < kept.len() && #[trigger] kept[j].id == id;
        lemma_kept_comes_from(s, is_pending(), j);
        let r = choose|r: int| 0 <= r < s.len() && s[r] == kept[j];
        assert(s[r].id == id);
    }
    let after = m.next(MsgView::ClearCompleted, true);
    let calls = m.effects(MsgView::ClearCompleted, true);
    assert(after.tasks == kept);
    assert(calls == deletions(ids));
    assert(after.in_flight == m.in_flight.union(ids.to_set()));
    assert(calls.len() == s.len() - kept.len());
    assert(forall|i: int| 0 <= i < after.tasks.len() ==> !(#[trigger] after.tasks[i]).completed);
}

/// An entry that a selection kept stands in the sequence selected from, and
/// meets the selection.
proof fn lemma_kept_comes_from(s: Seq<TaskView>, pred: spec_fn(TaskView) -> bool, j: int)
    requires
        0 <= j < s.filter(pred).len(),
    ensures
        pred(s.filter(pred)[j]),
        exists|r: int| 0 <= r < s.len() && s[r] == s.filter(pred)[j],
{
    let kept = s.filter(pred);
    s.lemma_filter_pred(pred, j);
    assert(kept.contains(kept[j]));
    s.lemma_filter_contains_rev(pred, kept[j]);
}

/// Every task is either completed or pending.
proof fn lemma_partition(s: Seq<TaskView>)
    ensures
        s.filter(is_done()).len() + s.filter(is_pending()).len() == s.len(),
    decreases s.len(),
{
    reveal(Seq::filter);
    if s.len() > 0 {
        lemma_partition(s.drop_last());
    }
}

/// The store never holds an identifier twice: every message keeps it so.
pub proof fn lemma_next_keeps_ids_distinct(m: ModelView, msg: MsgView, confirmed: bool)
    requires
        distinct_ids(m.tasks),
    ensures
        distinct_ids(m.next(msg, confirmed).tasks),
{
    match msg {
        MsgView::TasksLoaded(list) => {
            lemma_loaded_is_distinct(list);
        },
        MsgView::TaskCreated(task) => {
            lemma_with_task_keeps_distinct(m.tasks, task);
        },
        MsgView::ToggleTask(id) => {
            if contains_id(m.tasks, id) {
                lemma_position_is_first(m.tasks, id);
            }
        },
        MsgView::TaskUpdated(task) => {
            lemma_with_task_keeps_distinct(m.tasks, task);
        },
        MsgView::RevertTaskToggle(id, prior) => {
            if contains_id(m.tasks, id) {
                lemma_position_is_first(m.tasks, id);
            }
        },
        MsgView::DeleteTask(id) => {
            lemma_lookup_after_remove(m.tasks, id, id);
        },
        MsgView::TaskDeleted(id) => {
            lemma_lookup_after_remove(m.tasks, id, id);
        },
        MsgView::TaskSaved(task) => {
            lemma_with_task_keeps_distinct(m.tasks, task);
        },
        MsgView::ClearCompleted => {
            lemma_filter_keeps_distinct(m.tasks, is_pending());
        },
        _ => {},
    }
}

/// The identifier whose remote mutation `effect` asks for, where it asks for
/// one. A create call asks for none: the task has no identifier yet.
pub open spec fn target_of(effect: EffectView) -> Option<u128> {
    match effect {
        EffectView::ToggleTask { id, .. } => Some(id),
        EffectView::SaveTask { id, .. } => Some(id),
        EffectView::DeleteTask(id) => Some(id),
        _ => None,
    }
}

/// The identifiers for which `effects` dispatch a remote mutation.
pub open spec fn dispatched(effects: Seq<EffectView>) -> Set<u128> {
    Set::new(
        |id: u128|
            exists|i: int| 0 <= i < effects.len() && target_of(#[trigger] effects[i]) == Some(id),
    )
}

/// The identifier whose remote mutation `msg` reconciles, where `msg` is the
/// outcome of one, success or failure.
pub open spec fn settled_by(msg: MsgView) -> Option<u128> {
    match msg {
        MsgView::TaskUpdated(task) => Some(task.id),
        MsgView::RevertTaskToggle(id, _) => Some(id),
        MsgView::TaskSaved(task) => Some(task.id),
        MsgView::TaskDeleted(id) => Some(id),
        MsgView::SetTaskLoading(id, false) => Some(id),
        _ => None,
    }
}

/// Whether `msg` puts an identifier in flight by hand, without a dispatch.
pub open spec fn marks_by_hand(msg: MsgView) -> bool {
    msg matches MsgView::SetTaskLoading(_, true)
}

/// One step of the in-flight registry. The message that reconciles the
/// outcome of a mutation takes its identifier out of the registry; every
/// other message adds the identifiers for which it dispatches a mutation,
/// and takes none out.
pub proof fn lemma_in_flight_step(m: ModelView, msg: MsgView, confirmed: bool)
    requires
        !marks_by_hand(msg),
    ensures
        m.next(msg, confirmed).in_flight == match settled_by(msg) {
            Some(id) => m.in_flight.remove(id),
            None => m.in_flight.union(dispatched(m.effects(msg, confirmed))),
        },
        settled_by(msg).is_some() ==> dispatched(m.effects(msg, confirmed)) == Set::<u128>::empty(),
{
    let effects = m.effects(msg, confirmed);
    let after = m.next(msg, confirmed).in_flight;
    match msg {
        MsgView::ToggleTask(id) => {
            if contains_id(m.tasks, id) {
                assert(target_of(effects[0]) == Some(id));
                assert(dispatched(effects) =~= set![id]);
                assert(after =~= m.in_flight.union(dispatched(effects)));
            } else {
                assert(dispatched(effects) =~= Set::<u128>::empty());
                assert(after =~= m.in_flight.union(dispatched(effects)));
            }
        },
        MsgView::DeleteTask(id) => {
            if confirmed {
                assert(target_of(effects[0]) == Some(id));
                assert(dispatched(effects) =~= set![id]);
            } else {
                assert(dispatched(effects) =~= Set::<u128>::empty());
            }
            assert(after =~= m.in_flight.union(dispatched(effects)));
        },
        MsgView::SaveEdit(id) => {
            if m.editing_task == Some(id) {
                assert(target_of(effects[0]) == Some(id));
                assert(dispatched(effects) =~= set![id]);
            } else {
                assert(dispatched(effects) =~= Set::<u128>::empty());
            }
            assert(after =~= m.in_flight.union(dispatched(effects)));
        },
        MsgView::ClearCompleted => {
            if confirmed {
                let ids = completed_ids(m.tasks);
                assert forall|id: u128| dispatched(effects).contains(id) <==> ids.to_set().contains(
                    id,
                ) by {
                    if dispatched(effects).contains(id) {
                        let i = choose|i: int|
                            0 <= i < effects.len() && target_of(#[trigger] effects[i]) == Some(id);
                        assert(ids[i] == id);
                    }
                    if ids.to_set().contains(id) {
                        let i = choose|i: int| 0 <= i < ids.len() && ids[i] == id;
                        assert(target_of(effects[i]) == Some(id));
                    }
                }
                assert(dispatched(effects) =~= ids.to_set());
            } else {
                assert(dispatched(effects) =~= Set::<u128>::empty());
                assert(after =~= m.in_flight.union(dispatched(effects)));
            }
        },
        MsgView::NavigateTo(page) => {
            assert forall|id: u128| !dispatched(effects).contains(id) by {
                if dispatched(effects).contains(id) {
                    let i = choose|i: int|
                        0 <= i < effects.len() && target_of(#[trigger] effects[i]) == Some(id);
                    assert(target_of(effects[i]).is_none());
                }
            }
            assert(after =~= m.in_flight.union(dispatched(effects)));
        },
        MsgView::RouteChanged(_) | MsgView::LoadTasks | MsgView::CreateTask | MsgView::Error(_) => {
            assert forall|id: u128| !dispatched(effects).contains(id) by {
                if dispatched(effects).contains(id) {
                    let i = choose|i: int|
                        0 <= i < effects.len() && target_of(#[trigger] effects[i]) == Some(id);
                    assert(target_of(effects[i]).is_none());
                }
            }
            assert(after =~= m.in_flight.union(dispatched(effects)));
        },
        _ => {
            assert(dispatched(effects) =~= Set::<u128>::empty());
            if settled_by(msg).is_none() {
                assert(after =~= m.in_flight.union(dispatched(effects)));
            }
        },
    }
}

/// A message together with the user's answer to its confirmation question.
pub struct Event {
    pub msg: MsgView,
    pub confirmed: bool,
}

/// The model after the events of `trace`, taken in order.
pub open spec fn run(m: ModelView, trace: Seq<Event>) -> ModelView
    decreases trace.len(),
{
    if trace.len() == 0 {
        m
    } else {
        run(m, trace.drop_last()).next(trace.last().msg, trace.last().confirmed)
    }
}

/// The store of a model that is run from distinct identifiers holds
/// distinct identifiers.
pub proof fn lemma_run_keeps_ids_distinct(m: ModelView, trace: Seq<Event>)
    requires
        distinct_ids(m.tasks),
    ensures
        distinct_ids(run(m, trace).tasks),
    decreases trace.len(),
{
    if trace.len() > 0 {
        lemma_run_keeps_ids_distinct(m, trace.drop_last());
        lemma_next_keeps_ids_distinct(
            run(m, trace.drop_last()),
            trace.last().msg,
            trace.last().confirmed,
        );
    }
}

/// Event `k` of `trace` dispatches a remote mutation for `id`.
pub open spec fn dispatched_at(m: ModelView, trace: Seq<Event>, k: int, id: u128) -> bool {
    dispatched(run(m, trace.take(k)).effects(trace[k].msg, trace[k].confirmed)).contains(id)
}

/// Event `k` of `trace` reconciles the outcome of a remote mutation for `id`.
pub open spec fn settled_at(trace: Seq<Event>, k: int, id: u128) -> bool {
    settled_by(trace[k].msg) == Some(id)
}

/// At the end of `trace` a mutation for `id` has been dispatched and no
/// outcome for `id` has been reconciled since.
pub open spec fn awaited(m: ModelView, trace: Seq<Event>, id: u128) -> bool {
    exists|k: int|
        0 <= k < trace.len() && #[trigger] dispatched_at(m, trace, k, id) && forall|j: int|
            k < j < trace.len() ==> !#[trigger] settled_at(trace, j, id)
}

/// The in-flight registry over time. Start with nothing in flight and feed
/// the model any events, none of which marks an identifier by hand. Then an
/// identifier is in flight exactly from the event that dispatches a mutation
/// for it until the event that reconciles an outcome for it, and at no other
/// time.
pub proof fn lemma_in_flight_exactly_while_awaited(m: ModelView, trace: Seq<Event>, id: u128)
    requires
        m.in_flight == Set::<u128>::empty(),
        forall|k: int| 0 <= k < trace.len() ==> !marks_by_hand(#[trigger] trace[k].msg),
    ensures
        run(m, trace).in_flight.contains(id) <==> awaited(m, trace, id),
    decreases trace.len(),
{
    if trace.len() > 0 {
        let rest = trace.drop_last();
        let last = trace.len() - 1;
        let e = trace.last();
        let before = run(m, rest);
        assert forall|k: int| 0 <= k < rest.len() implies !marks_by_hand(#[trigger] rest[k].msg) by {
            assert(rest[k] == trace[k]);
        }
        lemma_in_flight_exactly_while_awaited(m, rest, id);
        lemma_in_flight_step(before, e.msg, e.confirmed);
        assert(trace.take(last) =~= rest);
        assert forall|k: int| 0 <= k < rest.len() implies dispatched_at(m, trace, k, id)
            == dispatched_at(m, rest, k, id) by {
            assert(trace.take(k) =~= rest.take(k));
            assert(trace[k] == rest[k]);
        }
        assert forall|j: int| 0 <= j < rest.len() implies settled_at(trace, j, id) == settled_at(
            rest,
            j,
            id,
        ) by {
            assert(trace[j] == rest[j]);
        }
        if settled_at(trace, last, id) {
            assert(!dispatched_at(m, trace, last, id));
            if awaited(m, trace, id) {
                let k = choose|k: int|
                    0 <= k < trace.len() && #[trigger] dispatched_at(m, trace, k, id) && forall|j: int|
                        k < j < trace.len() ==> !#[trigger] settled_at(trace, j, id);
                assert(settled_at(trace, last, id));
            }
        } else {
            if awaited(m, rest, id) {
                let k = choose|k: int|
                    0 <= k < rest.len() && #[trigger] dispatched_at(m, rest, k, id) && forall|j: int|
                        k < j < rest.len() ==> !#[trigger] settled_at(rest, j, id);
                assert(dispatched_at(m, trace, k, id));
                assert forall|j: int| k < j < trace.len() implies !#[trigger] settled_at(
                    trace,
                    j,
                    id,
                ) by {
                    if j < last {
                        assert(!settled_at(rest, j, id));
                    }
                }
                assert(awaited(m, trace, id));
            }
            if dispatched_at(m, trace, last, id) {
                assert(awaited(m, trace, id));
            }
            if awaited(m, trace, id) {
                let k = choose|k: int|
                    0 <= k < trace.len() && #[trigger] dispatched_at(m, trace, k, id) && forall|j: int|
                        k < j < trace.len() ==> !#[trigger] settled_at(trace, j, id);
                if k < last {
                    assert(dispatched_at(m, rest, k, id));
                    assert forall|j: int| k < j < rest.len() implies !#[trigger] settled_at(
                        rest,
                        j,
                        id,
                    ) by {
                        assert(!settled_at(trace, j, id));
                    }
                    assert(awaited(m, rest, id));
                }
            }
        }
    }
}

/// Selects the effects that dispatch a remote mutation for `id`.
pub open spec fn targets(id: u128) -> spec_fn(EffectView) -> bool {
    |effect: EffectView| target_of(effect) == Some(id)
}

/// The number of remote mutations for `id` that are outstanding at the end
/// of `trace`: those dispatched less those whose outcome was reconciled.
pub open spec fn outstanding(m: ModelView, trace: Seq<Event>, id: u128) -> int
    decreases trace.len(),
{
    if trace.len() == 0 {
        0
    } else {
        let before = run(m, trace.drop_last());
        let last = trace.last();
        outstanding(m, trace.drop_last(), id) + before.effects(last.msg, last.confirmed).filter(
            targets(id),
        ).len() - if settled_by(last.msg) == Some(id) {
            1int
        } else {
            0int
        }
    }
}

/// The event keeps to the single-flight discipline in model `m`: it
/// dispatches no mutation for an identifier that is in flight, it reconciles
/// an outcome only for an identifier that is in flight, and it marks nothing
/// by hand.
pub open spec fn keeps_single_flight(m: ModelView, event: Event) -> bool {
    &&& !marks_by_hand(event.msg)
    &&& forall|id: u128| #[trigger]
        dispatched(m.effects(event.msg, event.confirmed)).contains(id) ==> !m.in_flight.contains(id)
    &&& match settled_by(event.msg) {
        Some(id) => m.in_flight.contains(id),
        None => true,
    }
}

/// Every event of `trace` keeps to the single-flight discipline.
pub open spec fn single_flight(m: ModelView, trace: Seq<Event>) -> bool {
    forall|k: int|
        0 <= k < trace.len() ==> keeps_single_flight(#[trigger] run(m, trace.take(k)), trace[k])
}

/// Where no two effects ask for the same identifier, either one effect
/// dispatches a mutation for `id` or none does.
proof fn lemma_one_request_at_most(effects: Seq<EffectView>, id: u128)
    requires
        forall|i: int, j: int|
            0 <= i < j < effects.len() && target_of(#[trigger] effects[i]) == Some(id)
                ==> target_of(#[trigger] effects[j]) != Some(id),
    ensures
        effects.filter(targets(id)).len() == if dispatched(effects).contains(id) {
            1int
        } else {
            0int
        },
    decreases effects.len(),
{
    reveal(Seq::filter);
    if effects.len() > 0 {
        let rest = effects.drop_last();
        let last = effects.len() - 1;
        assert forall|i: int, j: int|
            0 <= i < j < rest.len() && target_of(#[trigger] rest[i]) == Some(id) implies target_of(
            #[trigger] rest[j],
        ) != Some(id) by {
            assert(rest[i] == effects[i]);
            assert(rest[j] == effects[j]);
        }
        lemma_one_request_at_most(rest, id);
        if dispatched(rest).contains(id) {
            let i = choose|i: int| 0 <= i < rest.len() && target_of(#[trigger] rest[i]) == Some(id);
            assert(target_of(effects[i]) == Some(id));
            assert(target_of(effects[last]) != Some(id));
            assert(dispatched(effects).contains(id));
        } else if target_of(effects[last]) == Some(id) {
            assert(dispatched(effects).contains(id));
        } else if dispatched(effects).contains(id) {
            let i = choose|i: int|
                0 <= i < effects.len() && target_of(#[trigger] effects[i]) == Some(id);
            assert(target_of(rest[i]) == Some(id));
        }
    } else {
        assert(!dispatched(effects).contains(id));
    }
}

/// One message dispatches at most one mutation for an identifier, where the
/// store holds no identifier twice.
pub proof fn lemma_one_request_for_each_identifier(
    m: ModelView,
    msg: MsgView,
    confirmed: bool,
    id: u128,
)
    requires
        distinct_ids(m.tasks),
    ensures
        m.effects(msg, confirmed).filter(targets(id)).len() == if dispatched(
            m.effects(msg, confirmed),
        ).contains(id) {
            1int
        } else {
            0int
        },
{
    let effects = m.effects(msg, confirmed);
    if msg is ClearCompleted && confirmed {
        let gone = m.tasks.filter(is_done());
        lemma_filter_keeps_distinct(m.tasks, is_done());
        assert forall|i: int, j: int|
            0 <= i < j < effects.len() && target_of(#[trigger] effects[i]) == Some(
                id,
            ) implies target_of(#[trigger] effects[j]) != Some(id) by {
            assert(gone[i].id != gone[j].id);
        }
    } else {
        assert(effects.len() <= 2);
        assert forall|i: int, j: int|
            0 <= i < j < effects.len() && target_of(#[trigger] effects[i]) == Some(
                id,
            ) implies target_of(#[trigger] effects[j]) != Some(id) by {
            assert(msg is NavigateTo);
        }
    }
    lemma_one_request_at_most(effects, id);
}

/// Single flight. Start with nothing in flight and a store without repeated
/// identifiers, and feed the model events that keep to the single-flight
/// discipline. Then at every moment at most one mutation is outstanding for
/// an identifier, and the identifier is in flight exactly while one is.
pub proof fn lemma_in_flight_counts_outstanding(m: ModelView, trace: Seq<Event>, id: u128)
    requires
        m.in_flight == Set::<u128>::empty(),
        distinct_ids(m.tasks),
        single_flight(m, trace),
    ensures
        outstanding(m, trace, id) == if run(m, trace).in_flight.contains(id) {
            1int
        } else {
            0int
        },
    decreases trace.len(),
{
    if trace.len() > 0 {
        let rest = trace.drop_last();
        let last = trace.len() - 1;
        let e = trace.last();
        let before = run(m, rest);
        assert(trace.take(last) =~= rest);
        assert(keeps_single_flight(run(m, trace.take(last)), trace[last]));
        assert forall|k: int| 0 <= k < rest.len() implies keeps_single_flight(
            #[trigger] run(m, rest.take(k)),
            rest[k],
        ) by {
            assert(trace.take(k) =~= rest.take(k));
            assert(keeps_single_flight(run(m, trace.take(k)), trace[k]));
        }
        lemma_in_flight_counts_outstanding(m, rest, id);
        lemma_run_keeps_ids_distinct(m, rest);
        lemma_one_request_for_each_identifier(before, e.msg, e.confirmed, id);
        lemma_in_flight_step(before, e.msg, e.confirmed);
        if dispatched(before.effects(e.msg, e.confirmed)).contains(id) {
            assert(!before.in_flight.contains(id));
        }
    }
}

} // verus!
