//! Figures about a list of tasks, as the pages show them.

use vstd::prelude::*;

use crate::store::{is_done, is_pending, views};
use crate::task::{Task, TaskView};

verus! {

/// `value` as a whole percentage of `total`, rounded down; 0 of nothing.
pub open spec fn share(value: nat, total: nat) -> nat {
    if total == 0 {
        0
    } else {
        value * 100 / total
    }
}

/// The number of bytes that the descriptions of `s` take in UTF-8.
pub open spec fn description_bytes(s: Seq<TaskView>) -> nat
    decreases s.len(),
{
    if s.len() == 0 {
        0
    } else {
        description_bytes(s.drop_last()) + vstd::utf8::encode_utf8(s.last().description).len()
    }
}

/// `value` as a whole percentage of `total`, rounded down; 0 where `total`
/// is 0. The result is as wide as the product of `value` and 100 needs.
pub fn percentage(value: usize, total: usize) -> (percent: u128)
    ensures
        percent == share(value as nat, total as nat),
{
    if total == 0 {
        0
    } else {
        let scaled: u128 = (value as u128) * 100;
        let percent: u128 = scaled / (total as u128);
        assert(percent == (value * 100) / (total as int)) by (nonlinear_arith)
            requires
                percent == scaled / (total as u128),
                scaled == value * 100,
                total > 0,
        ;
        percent
    }
}

/// The tasks of `tasks` that meet `done`: the completed ones, or the pending
/// ones, in order.
fn select(tasks: &Vec<Task>, done: bool) -> (chosen: Vec<&Task>)
    ensures
        chosen@.map_values(|t: &Task| t@) == views(tasks@).filter(
            if done {
                is_done()
            } else {
                is_pending()
            },
        ),
        chosen@.len() <= tasks@.len(),
{
    let ghost pred = if done {
        is_done()
    } else {
        is_pending()
    };
    let ghost all = views(tasks@);
    let mut chosen: Vec<&Task> = Vec::new();
    let mut i: usize = 0;
    proof {
        reveal(Seq::filter);
        assert(all.take(0) =~= Seq::<TaskView>::empty());
        assert(chosen@.map_values(|t: &Task| t@) =~= all.take(0).filter(pred));
    }
    while i < tasks.len()
        invariant
            i <= tasks.len(),
            all == views(tasks@),
            pred == if done {
                is_done()
            } else {
                is_pending()
            },
            chosen@.len() <= i,
            chosen@.map_values(|t: &Task| t@) == all.take(i as int).filter(pred),
        decreases tasks.len() - i,
    {
        let task = &tasks[i];
        proof {
            reveal(Seq::filter);
            assert(all.take(i + 1).drop_last() =~= all.take(i as int));
            assert(all.take(i + 1).last() == task@);
        }
        if task.completed == done {
            let ghost before = chosen@;
            chosen.push(task);
            assert(chosen@.map_values(|t: &Task| t@) =~= before.map_values(|t: &Task| t@).push(
                task@,
            ));
        }
        i += 1;
    }
    assert(all.take(tasks.len() as int) =~= all);
    chosen
}

/// The completed tasks of `tasks`, in order.
pub fn completed(tasks: &Vec<Task>) -> (chosen: Vec<&Task>)
    ensures
        chosen@.map_values(|t: &Task| t@) == views(tasks@).filter(is_done()),
{
    select(tasks, true)
}

/// The pending tasks of `tasks`, in order.
pub fn pending(tasks: &Vec<Task>) -> (chosen: Vec<&Task>)
    ensures
        chosen@.map_values(|t: &Task| t@) == views(tasks@).filter(is_pending()),
{
    select(tasks, false)
}

/// How many tasks of `tasks` are completed.
pub fn completed_count(tasks: &Vec<Task>) -> (count: usize)
    ensures
        count == views(tasks@).filter(is_done()).len(),
        count <= tasks@.len(),
{
    let chosen = select(tasks, true);
    assert(chosen@.map_values(|t: &Task| t@).len() == chosen@.len());
    chosen.len()
}

/// How many tasks of `tasks` are pending.
pub fn pending_count(tasks: &Vec<Task>) -> (count: usize)
    ensures
        count == views(tasks@).filter(is_pending()).len(),
        count <= tasks@.len(),
{
    let chosen = select(tasks, false);
    assert(chosen@.map_values(|t: &Task| t@).len() == chosen@.len());
    chosen.len()
}

/// The completed tasks as a whole percentage of all tasks, rounded down; 0
/// for an empty list.
pub fn completion_rate(tasks: &Vec<Task>) -> (percent: usize)
    ensures
        percent == share(views(tasks@).filter(is_done()).len(), tasks@.len()),
        percent <= 100,
{
    let done = completed_count(tasks);
    let total = tasks.len();
    if total == 0 {
        0
    } else {
        let scaled: u128 = (done as u128) * 100;
        let percent: u128 = scaled / (total as u128);
        assert(percent <= 100) by (nonlinear_arith)
            requires
                percent == scaled / (total as u128),
                scaled == done * 100,
                done <= total,
                total > 0,
        ;
        percent as usize
    }
}

/// The mean length of the descriptions of `tasks`, in bytes of UTF-8,
/// rounded down; 0 for an empty list.
pub fn average_description_length(tasks: &Vec<Task>) -> (mean: usize)
    ensures
        mean == if tasks@.len() == 0 {
            0
        } else {
            description_bytes(views(tasks@)) / tasks@.len()
        },
{
    let total = tasks.len();
    if total == 0 {
        return 0;
    }
    let ghost all = views(tasks@);
    let mut sum: u128 = 0;
    let mut i: usize = 0;
    assert(all.take(0) =~= Seq::<TaskView>::empty());
    while i < total
        invariant
            i <= total,
            total == tasks.len(),
            all == views(tasks@),
            sum == description_bytes(all.take(i as int)),
            sum <= i * usize::MAX,
        decreases total - i,
    {
        let bytes = tasks[i].description.as_str().as_bytes().len();
        proof {
            assert(all.take(i + 1).drop_last() =~= all.take(i as int));
            assert(all.take(i + 1).last() == tasks@[i as int]@);
            assert((i + 1) * usize::MAX == i * usize::MAX + usize::MAX) by (nonlinear_arith);
            assert(i * usize::MAX + usize::MAX <= u128::MAX) by (nonlinear_arith)
                requires
                    i < usize::MAX,
                    usize::MAX <= u64::MAX,
            ;
        }
        sum = sum + bytes as u128;
        i += 1;
    }
    assert(all.take(total as int) =~= all);
    let mean: u128 = sum / (total as u128);
    assert(mean <= usize::MAX) by (nonlinear_arith)
        requires
            mean == sum / (total as u128),
            sum <= total * usize::MAX,
            total > 0,
    ;
    mean as usize
}

} // verus!
