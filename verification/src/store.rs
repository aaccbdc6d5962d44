//! The entity store: the local replica of every known task.
//!
//! The store keeps its tasks in arrival order and never holds two tasks under
//! one identifier. Its mathematical value is the sequence of task values; the
//! functions below say what each operation does to that sequence.

use vstd::prelude::*;

use crate::task::{Task, TaskView};

verus! {

/// The values of a sequence of tasks, in order.
pub open spec fn views(tasks: Seq<Task>) -> Seq<TaskView> {
    tasks.map_values(|t: Task| t@)
}

/// No two entries share an identifier.
pub open spec fn distinct_ids(s: Seq<TaskView>) -> bool {
    forall|i: int, j: int| 0 <= i < j < s.len() ==> s[i].id != s[j].id
}

/// Some entry carries `id`.
pub open spec fn contains_id(s: Seq<TaskView>, id: u128) -> bool {
    exists|k: int| 0 <= k < s.len() && #[trigger] s[k].id == id
}

/// `k` is the first index whose entry carries `id`.
pub open spec fn is_first(s: Seq<TaskView>, id: u128, k: int) -> bool {
    &&& 0 <= k < s.len()
    &&& s[k].id == id
    &&& forall|j: int| 0 <= j < k ==> #[trigger] s[j].id != id
}

/// The first index whose entry carries `id`; meaningful when there is one.
pub open spec fn position(s: Seq<TaskView>, id: u128) -> int {
    choose|k: int| is_first(s, id, k)
}

/// The entry stored under `id`, if any.
pub open spec fn lookup(s: Seq<TaskView>, id: u128) -> Option<TaskView> {
    if contains_id(s, id) {
        Some(s[position(s, id)])
    } else {
        None
    }
}

/// `s` after `put(t)`: the entry under `t.id` is replaced where it stands, or
/// `t` is appended when the identifier is new.
pub open spec fn with_task(s: Seq<TaskView>, t: TaskView) -> Seq<TaskView> {
    if contains_id(s, t.id) {
        s.update(position(s, t.id), t)
    } else {
        s.push(t)
    }
}

/// `s` after `remove(id)`: the entry under `id` is gone, the rest keep their
/// order.
pub open spec fn without_id(s: Seq<TaskView>, id: u128) -> Seq<TaskView> {
    if contains_id(s, id) {
        s.remove(position(s, id))
    } else {
        s
    }
}

/// `s` with the completion flag of the entry under `id` set to `completed`;
/// `s` itself when there is no such entry.
pub open spec fn with_completion(s: Seq<TaskView>, id: u128, completed: bool) -> Seq<TaskView> {
    if contains_id(s, id) {
        let k = position(s, id);
        s.update(k, TaskView { completed, ..s[k] })
    } else {
        s
    }
}

/// Selects the tasks that are completed.
pub open spec fn is_done() -> spec_fn(TaskView) -> bool {
    |t: TaskView| t.completed
}

/// Selects the tasks that are not completed.
pub open spec fn is_pending() -> spec_fn(TaskView) -> bool {
    |t: TaskView| !t.completed
}

/// Maps a task to its identifier.
pub open spec fn id_of() -> spec_fn(TaskView) -> u128 {
    |t: TaskView| t.id
}

/// The identifiers of the completed entries of `s`, in order.
pub open spec fn completed_ids(s: Seq<TaskView>) -> Seq<u128> {
    s.filter(is_done()).map_values(id_of())
}

/// `s` after a full refresh from `list`: the entries of `list` in order, a
/// later entry replacing an earlier one of the same identifier.
pub open spec fn loaded(list: Seq<TaskView>) -> Seq<TaskView>
    decreases list.len(),
{
    if list.len() == 0 {
        Seq::empty()
    } else {
        with_task(loaded(list.drop_last()), list.last())
    }
}

/// The first index that carries an identifier is unique.
pub proof fn lemma_first_is_position(s: Seq<TaskView>, id: u128, k: int)
    requires
        is_first(s, id, k),
    ensures
        contains_id(s, id),
        position(s, id) == k,
{
    let p = position(s, id);
    assert(is_first(s, id, p));
    if p < k {
        assert(s[p].id != id);
    } else if k < p {
        assert(s[k].id != id);
    }
}

/// Where an identifier occurs at all, it has a first index.
pub proof fn lemma_position_is_first(s: Seq<TaskView>, id: u128)
    requires
        contains_id(s, id),
    ensures
        is_first(s, id, position(s, id)),
{
    let k = choose|k: int| 0 <= k < s.len() && #[trigger] s[k].id == id;
    lemma_has_first_below(s, id, k);
}

/// An identifier that stands at index `k` has a first index, at `k` or
/// before it.
proof fn lemma_has_first_below(s: Seq<TaskView>, id: u128, k: int)
    requires
        0 <= k < s.len(),
        s[k].id == id,
    ensures
        exists|f: int| is_first(s, id, f),
    decreases k,
{
    if exists|j: int| 0 <= j < k && #[trigger] s[j].id == id {
        let j = choose|j: int| 0 <= j < k && #[trigger] s[j].id == id;
        lemma_has_first_below(s, id, j);
    } else {
        assert(is_first(s, id, k));
    }
}

/// Dropping entries keeps the identifiers distinct.
pub proof fn lemma_filter_keeps_distinct(s: Seq<TaskView>, pred: spec_fn(TaskView) -> bool)
    requires
        distinct_ids(s),
    ensures
        distinct_ids(s.filter(pred)),
        forall|id: u128| contains_id(s.filter(pred), id) ==> contains_id(s, id),
    decreases s.len(),
{
    reveal(Seq::filter);
    if s.len() > 0 {
        let rest = s.drop_last();
        lemma_filter_keeps_distinct(rest, pred);
        let kept = rest.filter(pred);
        if pred(s.last()) {
            assert forall|i: int, j: int| 0 <= i < j < kept.push(s.last()).len() implies kept.push(
                s.last(),
            )[i].id != kept.push(s.last())[j].id by {
                if j == kept.len() {
                    if kept[i].id == s.last().id {
                        assert(contains_id(kept, s.last().id));
                        assert(contains_id(rest, s.last().id));
                        let k = choose|k: int| 0 <= k < rest.len() && #[trigger] rest[k].id == s.last().id;
                        assert(s[k].id == s[s.len() - 1].id);
                    }
                }
            }
        }
        assert forall|id: u128| contains_id(s.filter(pred), id) implies contains_id(s, id) by {
            let f = s.filter(pred);
            let k = choose|k: int| 0 <= k < f.len() && #[trigger] f[k].id == id;
            if pred(s.last()) && k == kept.len() {
                assert(s[s.len() - 1].id == id);
            } else {
                assert(kept[k].id == id);
                assert(contains_id(rest, id));
                let r = choose|r: int| 0 <= r < rest.len() && #[trigger] rest[r].id == id;
                assert(s[r].id == id);
            }
        }
    }
}

/// Storing a task keeps the identifiers distinct.
pub proof fn lemma_with_task_keeps_distinct(s: Seq<TaskView>, t: TaskView)
    requires
        distinct_ids(s),
    ensures
        distinct_ids(with_task(s, t)),
{
    if contains_id(s, t.id) {
        lemma_position_is_first(s, t.id);
    } else {
        assert forall|i: int, j: int| 0 <= i < j < s.push(t).len() implies s.push(t)[i].id
            != s.push(t)[j].id by {
            if j == s.len() {
                assert(s[i].id != t.id);
            }
        }
    }
}

/// A refreshed store never holds an identifier twice.
pub proof fn lemma_loaded_is_distinct(list: Seq<TaskView>)
    ensures
        distinct_ids(loaded(list)),
    decreases list.len(),
{
    if list.len() > 0 {
        lemma_loaded_is_distinct(list.drop_last());
        lemma_with_task_keeps_distinct(loaded(list.drop_last()), list.last());
    }
}

/// What is stored under an identifier is found under it, and storing it
/// leaves every other identifier as it was.
pub proof fn lemma_lookup_after_put(s: Seq<TaskView>, t: TaskView, id: u128)
    ensures
        lookup(with_task(s, t), t.id) == Some(t),
        id != t.id ==> lookup(with_task(s, t), id) == lookup(s, id),
{
    let after = with_task(s, t);
    if contains_id(s, t.id) {
        lemma_position_is_first(s, t.id);
        let k = position(s, t.id);
        assert(is_first(after, t.id, k)) by {
            assert forall|j: int| 0 <= j < k implies #[trigger] after[j].id != t.id by {
                assert(s[j].id != t.id);
            }
        }
        lemma_first_is_position(after, t.id, k);
    } else {
        assert(is_first(after, t.id, s.len() as int)) by {
            assert forall|j: int| 0 <= j < s.len() implies #[trigger] after[j].id != t.id by {
                assert(s[j].id != t.id);
            }
        }
        lemma_first_is_position(after, t.id, s.len() as int);
    }
    if id != t.id {
        lemma_same_ids_elsewhere(s, after, id);
    }
}

/// Two sequences that agree wherever `id` stands in either of them hold the
/// same entry under `id`.
proof fn lemma_same_ids_elsewhere(s: Seq<TaskView>, after: Seq<TaskView>, id: u128)
    requires
        forall|j: int| 0 <= j < s.len() && #[trigger] s[j].id == id ==> j < after.len() && after[j] == s[j],
        forall|j: int| 0 <= j < after.len() && #[trigger] after[j].id == id ==> j < s.len() && s[j] == after[j],
    ensures
        lookup(after, id) == lookup(s, id),
{
    if contains_id(s, id) {
        lemma_position_is_first(s, id);
        let k = position(s, id);
        assert(after[k].id == id);
        assert(is_first(after, id, k)) by {
            assert forall|j: int| 0 <= j < k implies #[trigger] after[j].id != id by {
                if after[j].id == id {
                    assert(s[j].id == id);
                }
            }
        }
        lemma_first_is_position(after, id, k);
    } else if contains_id(after, id) {
        let k = choose|k: int| 0 <= k < after.len() && #[trigger] after[k].id == id;
        assert(s[k].id == id);
    }
}

/// Setting the completion flag changes that flag of that task and nothing
/// else.
pub proof fn lemma_lookup_after_completion(s: Seq<TaskView>, id: u128, completed: bool, other: u128)
    ensures
        with_completion(s, id, completed).len() == s.len(),
        lookup(with_completion(s, id, completed), id) == match lookup(s, id) {
            Some(t) => Some(TaskView { completed, ..t }),
            None => None,
        },
        other != id ==> lookup(with_completion(s, id, completed), other) == lookup(s, other),
{
    let after = with_completion(s, id, completed);
    if contains_id(s, id) {
        lemma_position_is_first(s, id);
        let k = position(s, id);
        assert(is_first(after, id, k)) by {
            assert forall|j: int| 0 <= j < k implies #[trigger] after[j].id != id by {
                assert(s[j].id != id);
            }
        }
        lemma_first_is_position(after, id, k);
    } else {
        assert(!contains_id(after, id));
    }
    if other != id {
        lemma_same_ids_elsewhere(s, after, other);
    }
}

/// Setting a completion flag and then setting it back to what it was gives
/// the sequence that one started from.
pub proof fn lemma_completion_set_back(s: Seq<TaskView>, id: u128, completed: bool)
    requires
        contains_id(s, id),
    ensures
        with_completion(with_completion(s, id, completed), id, s[position(s, id)].completed) == s,
{
    lemma_position_is_first(s, id);
    let k = position(s, id);
    let mid = with_completion(s, id, completed);
    assert(is_first(mid, id, k)) by {
        assert forall|j: int| 0 <= j < k implies #[trigger] mid[j].id != id by {
            assert(s[j].id != id);
        }
    }
    lemma_first_is_position(mid, id, k);
    assert(with_completion(mid, id, s[k].completed) =~= s);
}

/// Where no identifier occurs twice, a removed identifier is gone, and
/// removing it leaves every other identifier as it was.
pub proof fn lemma_lookup_after_remove(s: Seq<TaskView>, id: u128, other: u128)
    requires
        distinct_ids(s),
    ensures
        distinct_ids(without_id(s, id)),
        !contains_id(without_id(s, id), id),
        other != id ==> lookup(without_id(s, id), other) == lookup(s, other),
{
    let after = without_id(s, id);
    if contains_id(s, id) {
        lemma_position_is_first(s, id);
        let k = position(s, id);
        assert forall|j: int| 0 <= j < after.len() implies after[j] == s[if j < k { j } else { j + 1 }] by {}
        if contains_id(after, id) {
            let j = choose|j: int| 0 <= j < after.len() && #[trigger] after[j].id == id;
            if j < k {
                assert(s[j].id == id);
            } else {
                assert(s[j + 1].id == id);
            }
        }
        if other != id {
            if contains_id(s, other) {
                lemma_position_is_first(s, other);
                let p = position(s, other);
                let q = if p < k { p } else { p - 1 };
                assert(after[q] == s[p]);
                assert(is_first(after, other, q)) by {
                    assert forall|j: int| 0 <= j < q implies #[trigger] after[j].id != other by {
                        if j < k {
                            assert(s[j].id != other);
                        } else {
                            assert(s[j + 1].id != other);
                        }
                    }
                }
                lemma_first_is_position(after, other, q);
            } else if contains_id(after, other) {
                let j = choose|j: int| 0 <= j < after.len() && #[trigger] after[j].id == other;
                if j < k {
                    assert(s[j].id == other);
                } else {
                    assert(s[j + 1].id == other);
                }
            }
        }
    }
}

/// A list without a repeated identifier is stored as it is by a refresh.
pub proof fn lemma_loaded_distinct_list(list: Seq<TaskView>)
    requires
        distinct_ids(list),
    ensures
        loaded(list) == list,
    decreases list.len(),
{
    if list.len() > 0 {
        let rest = list.drop_last();
        lemma_loaded_distinct_list(rest);
        if contains_id(rest, list.last().id) {
            let k = choose|k: int| 0 <= k < rest.len() && #[trigger] rest[k].id == list.last().id;
            assert(list[k].id == list[list.len() - 1].id);
        }
        assert(rest.push(list.last()) =~= list);
    } else {
        assert(loaded(list) =~= list);
    }
}

/// The local replica: the known tasks in arrival order, at most one per
/// identifier.
#[derive(Debug)]
pub struct Store {
    tasks: Vec<Task>,
}

impl View for Store {
    type V = Seq<TaskView>;

    closed spec fn view(&self) -> Seq<TaskView> {
        views(self.tasks@)
    }
}

impl Store {
    #[verifier::type_invariant]
    spec fn unique(self) -> bool {
        distinct_ids(views(self.tasks@))
    }

    /// The empty store.
    pub fn new() -> (store: Store)
        ensures
            store@ == Seq::<TaskView>::empty(),
    {
        let store = Store { tasks: Vec::new() };
        assert(store@ =~= Seq::<TaskView>::empty());
        store
    }

    /// The number of tasks held.
    pub fn len(&self) -> (n: usize)
        ensures
            n == self@.len(),
    {
        self.tasks.len()
    }

    /// Every task held, in arrival order. No identifier occurs twice.
    pub fn list(&self) -> (tasks: &Vec<Task>)
        ensures
            views(tasks@) == self@,
            distinct_ids(self@),
    {
        proof {
            use_type_invariant(self);
        }
        &self.tasks
    }

    /// The index of the task stored under `id`.
    fn find(&self, id: u128) -> (found: Option<usize>)
        ensures
            match found {
                Some(k) => is_first(self@, id, k as int),
                None => !contains_id(self@, id),
            },
    {
        let mut i: usize = 0;
        while i < self.tasks.len()
            invariant
                i <= self.tasks.len(),
                forall|j: int| 0 <= j < i ==> #[trigger] self@[j].id != id,
            decreases self.tasks.len() - i,
        {
            if self.tasks[i].id == id {
                return Some(i);
            }
            i += 1;
        }
        None
    }

    /// The task stored under `id`, or `None` when the store holds none.
    pub fn get(&self, id: u128) -> (task: Option<&Task>)
        ensures
            match task {
                Some(t) => lookup(self@, id) == Some(t@),
                None => lookup(self@, id).is_none(),
            },
    {
        match self.find(id) {
            Some(k) => {
                proof {
                    lemma_first_is_position(self@, id, k as int);
                }
                Some(&self.tasks[k])
            },
            None => None,
        }
    }

    /// Whether a task is stored under `id`.
    pub fn contains(&self, id: u128) -> (held: bool)
        ensures
            held == contains_id(self@, id),
    {
        self.find(id).is_some()
    }

    /// Stores `task`: replaces the task of the same identifier where it
    /// stands, or appends `task` when its identifier is new.
    pub fn put(&mut self, task: Task)
        ensures
            final(self)@ == with_task(old(self)@, task@),
    {
        proof {
            use_type_invariant(&*self);
        }
        let found = self.find(task.id);
        let mut tasks: Vec<Task> = Vec::new();
        std::mem::swap(&mut tasks, &mut self.tasks);
        let ghost before = views(tasks@);
        match found {
            Some(k) => {
                proof {
                    lemma_first_is_position(before, task.id, k as int);
                }
                tasks[k] = task;
                assert(views(tasks@) =~= before.update(k as int, task@));
            },
            None => {
                tasks.push(task);
                assert(views(tasks@) =~= before.push(task@));
            },
        }
        self.tasks = tasks;
    }

    /// Sets the completion flag of the task stored under `id`; does nothing
    /// when there is none.
    pub fn set_completed(&mut self, id: u128, completed: bool)
        ensures
            final(self)@ == with_completion(old(self)@, id, completed),
    {
        proof {
            use_type_invariant(&*self);
        }
        match self.find(id) {
            Some(k) => {
                proof {
                    lemma_first_is_position(self@, id, k as int);
                }
                let mut tasks: Vec<Task> = Vec::new();
                std::mem::swap(&mut tasks, &mut self.tasks);
                let ghost before = views(tasks@);
                tasks[k].completed = completed;
                assert(views(tasks@) =~= before.update(
                    k as int,
                    TaskView { completed, ..before[k as int] },
                ));
                self.tasks = tasks;
            },
            None => {},
        }
    }

    /// Removes every completed task and returns their identifiers, in the
    /// order in which the tasks stood.
    pub fn remove_completed(&mut self) -> (ids: Vec<u128>)
        ensures
            ids@ == completed_ids(old(self)@),
            final(self)@ == old(self)@.filter(is_pending()),
    {
        proof {
            use_type_invariant(&*self);
        }
        let mut tasks: Vec<Task> = Vec::new();
        std::mem::swap(&mut tasks, &mut self.tasks);
        let ghost before = views(tasks@);
        let ghost all = tasks@;
        let mut kept: Vec<Task> = Vec::new();
        let mut ids: Vec<u128> = Vec::new();
        assert(before.take(0) =~= Seq::<TaskView>::empty());
        proof {
            reveal(Seq::filter);
        }
        for task in it: tasks
            invariant
                it.seq() == all,
                before == views(all),
                views(kept@) == before.take(it.index()).filter(is_pending()),
                ids@ == completed_ids(before.take(it.index())),
        {
            let ghost i = it.index();
            proof {
                assert(before.take(i + 1).drop_last() =~= before.take(i));
                assert(before.take(i + 1).last() == task@);
                reveal(Seq::filter);
            }
            if task.completed {
                ids.push(task.id);
                assert(ids@ =~= completed_ids(before.take(i + 1)));
            } else {
                kept.push(task);
                assert(views(kept@) =~= before.take(i + 1).filter(is_pending()));
                assert(ids@ =~= completed_ids(before.take(i + 1)));
            }
        }
        proof {
            assert(before.take(before.len() as int) =~= before);
            lemma_filter_keeps_distinct(before, is_pending());
        }
        self.tasks = kept;
        ids
    }

    /// Replaces the whole content by `list`, as after a full refresh from the
    /// remote store. Where `list` holds an identifier more than once, the
    /// last such task stands in the place of the first.
    pub fn load(&mut self, list: Vec<Task>)
        ensures
            final(self)@ == loaded(views(list@)),
    {
        let ghost given = views(list@);
        let ghost all = list@;
        let mut fresh = Store::new();
        assert(given.take(0) =~= Seq::<TaskView>::empty());
        for task in it: list
            invariant
                it.seq() == all,
                given == views(all),
                fresh@ == loaded(given.take(it.index())),
        {
            let ghost i = it.index();
            proof {
                assert(given.take(i + 1).drop_last() =~= given.take(i));
                assert(given.take(i + 1).last() == task@);
            }
            fresh.put(task);
        }
        assert(given.take(given.len() as int) =~= given);
        *self = fresh;
    }

    /// Removes the task stored under `id`; does nothing when there is none.
    pub fn remove(&mut self, id: u128)
        ensures
            final(self)@ == without_id(old(self)@, id),
    {
        proof {
            use_type_invariant(&*self);
        }
        match self.find(id) {
            Some(k) => {
                proof {
                    lemma_first_is_position(self@, id, k as int);
                }
                let mut tasks: Vec<Task> = Vec::new();
                std::mem::swap(&mut tasks, &mut self.tasks);
                let ghost before = views(tasks@);
                tasks.remove(k);
                assert(views(tasks@) =~= before.remove(k as int));
                self.tasks = tasks;
            },
            None => {},
        }
    }
}

} // verus!
